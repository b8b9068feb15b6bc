//! The decisions of opening the history database with recovery: what to do
//! next after each outcome, from creating the data directory to reporting
//! the store's health. The caller performs each action and reports back.

use crate::health::{
    classify_io_error, io_failure_reason, HistoryHealthState, HistoryOpenFailure, IoFailure,
    RecoveryNotice, RecoveryNoticePhase, HISTORY_RECOVERY_NOTICE_VERSION,
};
use crate::storage::RemovalOutcome;
use crate::types::{HistoryReadOnlyReason, RecoveryReason};
use crate::text::text_eq;
use vstd::prelude::*;
use vstd::string::*;

verus! {

/// Where an open with recovery stands: which outcome it waits for, and what it carries.
#[derive(Debug)]
pub enum OpenPhase {
    AwaitDirectory,
    AwaitLiveFile,
    AwaitNotice { live_existed: bool },
    AwaitQuarantineCheck { notice: RecoveryNotice },
    AwaitReconcile,
    AwaitLiveAgain { notice: RecoveryNotice },
    AwaitOpen { notice: Option<RecoveryNotice>, stale: bool },
    AwaitMarkRecovered { notice: RecoveryNotice },
    AwaitStaleRemoval,
    AwaitQuarantine { reason: RecoveryReason },
    AwaitFresh { reason: RecoveryReason, path: String },
    AwaitFreshNotice { reason: RecoveryReason, path: String },
    Done,
}

/// What the caller does next.
#[derive(Debug)]
pub enum OpenAction {
    /// Create the data directory (and its parents).
    CreateDataDirectory,
    /// Check whether the live database exists as a plain file.
    CheckLiveFile,
    /// Load the recovery notice, if there is one.
    LoadNotice,
    /// Check that a recovered notice's quarantine directory still holds its database.
    CheckRecoveredQuarantine { notice: RecoveryNotice },
    /// Finish an interrupted quarantine and return the notice as it now stands.
    ReconcileNotice { notice: RecoveryNotice },
    /// Open, check and migrate the live database once.
    OpenDatabase,
    /// Publish this notice.
    WriteNotice { notice: RecoveryNotice },
    /// Remove the stale notice file.
    RemoveNoticeFile,
    /// Move the live database into a new quarantine directory, publishing notices.
    QuarantineDatabase { reason: RecoveryReason },
    /// Open a fresh database in place of the quarantined one.
    CreateFreshDatabase,
    /// Stop: with the opened database when `usable`, and this health either way.
    Finish { usable: bool, health: HistoryHealthState },
}

/// What came of the last action.
#[derive(Debug)]
pub enum OpenEvent {
    DirectoryCreated { result: Result<(), IoFailure> },
    LiveFileChecked { result: Result<bool, IoFailure> },
    NoticeMissing,
    NoticeFound { notice: RecoveryNotice },
    NoticeUnreadable,
    QuarantineChecked { present: Option<bool> },
    NoticeReconciled { notice: Option<RecoveryNotice> },
    DatabaseOpened { result: Result<(), HistoryOpenFailure> },
    NoticeWritten { ok: bool },
    NoticeRemoved { outcome: RemovalOutcome },
    Quarantined { path: Option<String> },
    FreshCreated { ok: bool },
}

/// A notice for the same recovery at a later phase.
pub open spec fn notice_at(notice: RecoveryNotice, phase: RecoveryNoticePhase) -> RecoveryNotice {
    RecoveryNotice {
        format_version: HISTORY_RECOVERY_NOTICE_VERSION,
        phase,
        reason: notice.reason,
        quarantine_path: notice.quarantine_path,
    }
}

/// Stop with the database unusable and history read-only for `reason`.
pub open spec fn fail_read_only(reason: HistoryReadOnlyReason) -> (OpenPhase, OpenAction) {
    (
        OpenPhase::Done,
        OpenAction::Finish { usable: false, health: HistoryHealthState::ReadOnly { reason } },
    )
}

/// Stop with the database unusable after a quarantine that no fresh database followed.
pub open spec fn fail_fresh(reason: RecoveryReason, path: String) -> (OpenPhase, OpenAction) {
    (
        OpenPhase::Done,
        OpenAction::Finish {
            usable: false,
            health: HistoryHealthState::FreshDatabaseFailed {
                recovery_reason: reason,
                quarantine_path: path,
            },
        },
    )
}

/// Where to go once the notice is settled: a recovered notice first needs
/// the live database to exist; otherwise open it.
pub open spec fn after_notice(notice: Option<RecoveryNotice>, stale: bool) -> (OpenPhase, OpenAction) {
    match notice {
        Some(n) => if n.phase == RecoveryNoticePhase::Recovered {
            (OpenPhase::AwaitLiveAgain { notice: n }, OpenAction::CheckLiveFile)
        } else {
            (OpenPhase::AwaitOpen { notice: Some(n), stale }, OpenAction::OpenDatabase)
        },
        None => (OpenPhase::AwaitOpen { notice: None, stale }, OpenAction::OpenDatabase),
    }
}

/// Whether `event` answers the action a phase waits on.
pub open spec fn accepts_event(phase: OpenPhase, event: OpenEvent) -> bool {
    match (phase, event) {
        (OpenPhase::AwaitDirectory, OpenEvent::DirectoryCreated { .. }) => true,
        (OpenPhase::AwaitLiveFile, OpenEvent::LiveFileChecked { .. }) => true,
        (OpenPhase::AwaitNotice { .. }, OpenEvent::NoticeMissing) => true,
        (OpenPhase::AwaitNotice { .. }, OpenEvent::NoticeFound { .. }) => true,
        (OpenPhase::AwaitNotice { .. }, OpenEvent::NoticeUnreadable) => true,
        (OpenPhase::AwaitQuarantineCheck { .. }, OpenEvent::QuarantineChecked { .. }) => true,
        (OpenPhase::AwaitReconcile, OpenEvent::NoticeReconciled { .. }) => true,
        (OpenPhase::AwaitLiveAgain { .. }, OpenEvent::LiveFileChecked { .. }) => true,
        (OpenPhase::AwaitOpen { .. }, OpenEvent::DatabaseOpened { result }) => result
            != Err::<(), HistoryOpenFailure>(
            HistoryOpenFailure::ReadOnly(HistoryReadOnlyReason::FreshDatabaseFailed),
        ),
        (OpenPhase::AwaitMarkRecovered { .. }, OpenEvent::NoticeWritten { .. }) => true,
        (OpenPhase::AwaitStaleRemoval, OpenEvent::NoticeRemoved { .. }) => true,
        (OpenPhase::AwaitQuarantine { .. }, OpenEvent::Quarantined { .. }) => true,
        (OpenPhase::AwaitFresh { .. }, OpenEvent::FreshCreated { .. }) => true,
        (OpenPhase::AwaitFreshNotice { .. }, OpenEvent::NoticeWritten { .. }) => true,
        _ => false,
    }
}

/// The next phase and action after `event` (for an event the phase accepts).
pub open spec fn open_next(phase: OpenPhase, event: OpenEvent) -> (OpenPhase, OpenAction) {
    match (phase, event) {
        (OpenPhase::AwaitDirectory, OpenEvent::DirectoryCreated { result }) => match result {
            Err(e) => fail_read_only(io_failure_reason(e)),
            Ok(()) => (OpenPhase::AwaitLiveFile, OpenAction::CheckLiveFile),
        },
        (OpenPhase::AwaitLiveFile, OpenEvent::LiveFileChecked { result }) => match result {
            Err(e) => fail_read_only(io_failure_reason(e)),
            Ok(b) => (OpenPhase::AwaitNotice { live_existed: b }, OpenAction::LoadNotice),
        },
        (OpenPhase::AwaitNotice { .. }, OpenEvent::NoticeUnreadable) => fail_read_only(
            HistoryReadOnlyReason::QuarantineFailed,
        ),
        (OpenPhase::AwaitNotice { .. }, OpenEvent::NoticeMissing) => after_notice(None, false),
        (OpenPhase::AwaitNotice { live_existed }, OpenEvent::NoticeFound { notice }) => if notice.phase
            == RecoveryNoticePhase::Recovered && live_existed {
            (
                OpenPhase::AwaitQuarantineCheck { notice },
                OpenAction::CheckRecoveredQuarantine { notice },
            )
        } else {
            (OpenPhase::AwaitReconcile, OpenAction::ReconcileNotice { notice })
        },
        (OpenPhase::AwaitQuarantineCheck { notice }, OpenEvent::QuarantineChecked { present }) =>
        match present {
            None => fail_read_only(HistoryReadOnlyReason::QuarantineFailed),
            Some(true) => after_notice(Some(notice), false),
            Some(false) => after_notice(None, true),
        },
        (OpenPhase::AwaitReconcile, OpenEvent::NoticeReconciled { notice }) => match notice {
            None => fail_read_only(HistoryReadOnlyReason::QuarantineFailed),
            Some(n) => after_notice(Some(n), false),
        },
        (OpenPhase::AwaitLiveAgain { notice }, OpenEvent::LiveFileChecked { result }) => match result {
            Err(e) => fail_read_only(io_failure_reason(e)),
            Ok(false) => fail_fresh(notice.reason, notice.quarantine_path),
            Ok(true) => (
                OpenPhase::AwaitOpen { notice: Some(notice), stale: false },
                OpenAction::OpenDatabase,
            ),
        },
        (OpenPhase::AwaitOpen { notice, stale }, OpenEvent::DatabaseOpened { result }) => match result {
            Ok(()) => match notice {
                Some(n) => if n.phase == RecoveryNoticePhase::Quarantined {
                    (
                        OpenPhase::AwaitMarkRecovered { notice: n },
                        OpenAction::WriteNotice {
                            notice: notice_at(n, RecoveryNoticePhase::Recovered),
                        },
                    )
                } else {
                    (
                        OpenPhase::Done,
                        OpenAction::Finish {
                            usable: true,
                            health: HistoryHealthState::Recovered {
                                reason: n.reason,
                                quarantine_path: n.quarantine_path,
                            },
                        },
                    )
                },
                None => if stale {
                    (OpenPhase::AwaitStaleRemoval, OpenAction::RemoveNoticeFile)
                } else {
                    (
                        OpenPhase::Done,
                        OpenAction::Finish { usable: true, health: HistoryHealthState::Healthy },
                    )
                },
            },
            Err(failure) => if notice matches Some(n) && n.phase == RecoveryNoticePhase::Quarantined {
                fail_fresh(notice->0.reason, notice->0.quarantine_path)
            } else {
                match failure {
                    HistoryOpenFailure::ConfirmedCorruption(reason) => (
                        OpenPhase::AwaitQuarantine { reason },
                        OpenAction::QuarantineDatabase { reason },
                    ),
                    HistoryOpenFailure::ReadOnly(reason) => fail_read_only(reason),
                }
            },
        },
        (OpenPhase::AwaitMarkRecovered { notice }, OpenEvent::NoticeWritten { ok }) => if ok {
            (
                OpenPhase::Done,
                OpenAction::Finish {
                    usable: true,
                    health: HistoryHealthState::Recovered {
                        reason: notice.reason,
                        quarantine_path: notice.quarantine_path,
                    },
                },
            )
        } else {
            fail_fresh(notice.reason, notice.quarantine_path)
        },
        (OpenPhase::AwaitStaleRemoval, OpenEvent::NoticeRemoved { outcome }) => if outcome
            == RemovalOutcome::Failed {
            fail_read_only(HistoryReadOnlyReason::QuarantineFailed)
        } else {
            (OpenPhase::Done, OpenAction::Finish { usable: true, health: HistoryHealthState::Healthy })
        },
        (OpenPhase::AwaitQuarantine { reason }, OpenEvent::Quarantined { path }) => match path {
            None => fail_read_only(HistoryReadOnlyReason::QuarantineFailed),
            Some(p) => (OpenPhase::AwaitFresh { reason, path: p }, OpenAction::CreateFreshDatabase),
        },
        (OpenPhase::AwaitFresh { reason, path }, OpenEvent::FreshCreated { ok }) => if ok {
            (
                OpenPhase::AwaitFreshNotice { reason, path },
                OpenAction::WriteNotice {
                    notice: RecoveryNotice {
                        format_version: HISTORY_RECOVERY_NOTICE_VERSION,
                        phase: RecoveryNoticePhase::Recovered,
                        reason,
                        quarantine_path: path,
                    },
                },
            )
        } else {
            fail_fresh(reason, path)
        },
        (OpenPhase::AwaitFreshNotice { reason, path }, OpenEvent::NoticeWritten { ok }) => if ok {
            (
                OpenPhase::Done,
                OpenAction::Finish {
                    usable: true,
                    health: HistoryHealthState::Recovered { reason, quarantine_path: path },
                },
            )
        } else {
            fail_fresh(reason, path)
        },
        _ => (OpenPhase::Done, OpenAction::Finish { usable: false, health: HistoryHealthState::Healthy }),
    }
}

/// The same notice again.
pub fn copy_notice(notice: &RecoveryNotice) -> (out: RecoveryNotice)
    ensures
        out == *notice,
{
    RecoveryNotice {
        format_version: notice.format_version,
        phase: notice.phase,
        reason: notice.reason,
        quarantine_path: notice.quarantine_path.clone(),
    }
}

fn exec_after_notice(notice: Option<RecoveryNotice>, stale: bool) -> (out: (OpenPhase, OpenAction))
    ensures
        out == after_notice(notice, stale),
{
    match notice {
        Some(n) => if n.phase == RecoveryNoticePhase::Recovered {
            (OpenPhase::AwaitLiveAgain { notice: n }, OpenAction::CheckLiveFile)
        } else {
            (OpenPhase::AwaitOpen { notice: Some(n), stale }, OpenAction::OpenDatabase)
        },
        None => (OpenPhase::AwaitOpen { notice: None, stale }, OpenAction::OpenDatabase),
    }
}

fn exec_fail_read_only(reason: HistoryReadOnlyReason) -> (out: (OpenPhase, OpenAction))
    ensures
        out == fail_read_only(reason),
{
    (OpenPhase::Done, OpenAction::Finish { usable: false, health: HistoryHealthState::ReadOnly { reason } })
}

fn exec_fail_fresh(reason: RecoveryReason, path: String) -> (out: (OpenPhase, OpenAction))
    ensures
        out == fail_fresh(reason, path),
{
    (
        OpenPhase::Done,
        OpenAction::Finish {
            usable: false,
            health: HistoryHealthState::FreshDatabaseFailed { recovery_reason: reason, quarantine_path: path },
        },
    )
}

/// The first phase and action of an open with recovery: create the data directory.
pub fn open_with_recovery_start() -> (out: (OpenPhase, OpenAction))
    ensures
        out.0 matches OpenPhase::AwaitDirectory,
        out.1 matches OpenAction::CreateDataDirectory,
{
    (OpenPhase::AwaitDirectory, OpenAction::CreateDataDirectory)
}

/// Whether `event` answers the action `phase` waits on (see [`accepts_event`]).
pub fn open_accepts(phase: &OpenPhase, event: &OpenEvent) -> (b: bool)
    ensures
        b == accepts_event(*phase, *event),
{
    match (phase, event) {
        (OpenPhase::AwaitDirectory, OpenEvent::DirectoryCreated { .. }) => true,
        (OpenPhase::AwaitLiveFile, OpenEvent::LiveFileChecked { .. }) => true,
        (OpenPhase::AwaitNotice { .. }, OpenEvent::NoticeMissing) => true,
        (OpenPhase::AwaitNotice { .. }, OpenEvent::NoticeFound { .. }) => true,
        (OpenPhase::AwaitNotice { .. }, OpenEvent::NoticeUnreadable) => true,
        (OpenPhase::AwaitQuarantineCheck { .. }, OpenEvent::QuarantineChecked { .. }) => true,
        (OpenPhase::AwaitReconcile, OpenEvent::NoticeReconciled { .. }) => true,
        (OpenPhase::AwaitLiveAgain { .. }, OpenEvent::LiveFileChecked { .. }) => true,
        (OpenPhase::AwaitOpen { .. }, OpenEvent::DatabaseOpened { result }) => match result {
            Err(HistoryOpenFailure::ReadOnly(reason)) => *reason != HistoryReadOnlyReason::FreshDatabaseFailed,
            _ => true,
        },
        (OpenPhase::AwaitMarkRecovered { .. }, OpenEvent::NoticeWritten { .. }) => true,
        (OpenPhase::AwaitStaleRemoval, OpenEvent::NoticeRemoved { .. }) => true,
        (OpenPhase::AwaitQuarantine { .. }, OpenEvent::Quarantined { .. }) => true,
        (OpenPhase::AwaitFresh { .. }, OpenEvent::FreshCreated { .. }) => true,
        (OpenPhase::AwaitFreshNotice { .. }, OpenEvent::NoticeWritten { .. }) => true,
        _ => false,
    }
}

fn step_await_notice(live_existed: bool, event: OpenEvent) -> (out: (OpenPhase, OpenAction))
    requires
        accepts_event(OpenPhase::AwaitNotice { live_existed }, event),
    ensures
        out == open_next(OpenPhase::AwaitNotice { live_existed }, event),
{
    match event {
        OpenEvent::NoticeUnreadable => exec_fail_read_only(HistoryReadOnlyReason::QuarantineFailed),
        OpenEvent::NoticeMissing => exec_after_notice(None, false),
        OpenEvent::NoticeFound { notice } => {
            if notice.phase == RecoveryNoticePhase::Recovered && live_existed {
                let again = copy_notice(&notice);
                (
                    OpenPhase::AwaitQuarantineCheck { notice },
                    OpenAction::CheckRecoveredQuarantine { notice: again },
                )
            } else {
                (OpenPhase::AwaitReconcile, OpenAction::ReconcileNotice { notice })
            }
        },
        _ => exec_fail_read_only(HistoryReadOnlyReason::Unknown),
    }
}

fn step_await_open(notice: Option<RecoveryNotice>, stale: bool, result: Result<(), HistoryOpenFailure>) -> (out: (
    OpenPhase,
    OpenAction,
))
    requires
        accepts_event(OpenPhase::AwaitOpen { notice, stale }, OpenEvent::DatabaseOpened { result }),
    ensures
        out == open_next(OpenPhase::AwaitOpen { notice, stale }, OpenEvent::DatabaseOpened { result }),
{
    match result {
        Ok(()) => match notice {
            Some(n) => if n.phase == RecoveryNoticePhase::Quarantined {
                let recovered = RecoveryNotice {
                    format_version: HISTORY_RECOVERY_NOTICE_VERSION,
                    phase: RecoveryNoticePhase::Recovered,
                    reason: n.reason,
                    quarantine_path: n.quarantine_path.clone(),
                };
                (OpenPhase::AwaitMarkRecovered { notice: n }, OpenAction::WriteNotice { notice: recovered })
            } else {
                (
                    OpenPhase::Done,
                    OpenAction::Finish {
                        usable: true,
                        health: HistoryHealthState::Recovered {
                            reason: n.reason,
                            quarantine_path: n.quarantine_path,
                        },
                    },
                )
            },
            None => if stale {
                (OpenPhase::AwaitStaleRemoval, OpenAction::RemoveNoticeFile)
            } else {
                (OpenPhase::Done, OpenAction::Finish { usable: true, health: HistoryHealthState::Healthy })
            },
        },
        Err(failure) => {
            let incomplete = match &notice {
                Some(n) => n.phase == RecoveryNoticePhase::Quarantined,
                None => false,
            };
            if incomplete {
                match notice {
                    Some(n) => exec_fail_fresh(n.reason, n.quarantine_path),
                    None => exec_fail_read_only(HistoryReadOnlyReason::Unknown),
                }
            } else {
                match failure {
                    HistoryOpenFailure::ConfirmedCorruption(reason) => (
                        OpenPhase::AwaitQuarantine { reason },
                        OpenAction::QuarantineDatabase { reason },
                    ),
                    HistoryOpenFailure::ReadOnly(reason) => exec_fail_read_only(reason),
                }
            }
        },
    }
}

fn step_await_fresh(reason: RecoveryReason, path: String, ok: bool) -> (out: (OpenPhase, OpenAction))
    ensures
        out == open_next(OpenPhase::AwaitFresh { reason, path }, OpenEvent::FreshCreated { ok }),
{
    if ok {
        let notice = RecoveryNotice {
            format_version: HISTORY_RECOVERY_NOTICE_VERSION,
            phase: RecoveryNoticePhase::Recovered,
            reason,
            quarantine_path: path.clone(),
        };
        (OpenPhase::AwaitFreshNotice { reason, path }, OpenAction::WriteNotice { notice })
    } else {
        exec_fail_fresh(reason, path)
    }
}

fn finish_recovered(reason: RecoveryReason, path: String) -> (out: (OpenPhase, OpenAction))
    ensures
        out == (
            OpenPhase::Done,
            OpenAction::Finish {
                usable: true,
                health: HistoryHealthState::Recovered { reason, quarantine_path: path },
            },
        ),
{
    (
        OpenPhase::Done,
        OpenAction::Finish {
            usable: true,
            health: HistoryHealthState::Recovered { reason, quarantine_path: path },
        },
    )
}

/// Decides what follows `event` (see [`open_next`]).
#[verifier::rlimit(30)]
pub fn open_with_recovery_step(phase: OpenPhase, event: OpenEvent) -> (out: (OpenPhase, OpenAction))
    requires
        accepts_event(phase, event),
    ensures
        out == open_next(phase, event),
{
    match phase {
        OpenPhase::AwaitDirectory => match event {
            OpenEvent::DirectoryCreated { result } => match result {
                Err(e) => exec_fail_read_only(classify_io_error(&e)),
                Ok(()) => (OpenPhase::AwaitLiveFile, OpenAction::CheckLiveFile),
            },
            _ => exec_fail_read_only(HistoryReadOnlyReason::Unknown),
        },
        OpenPhase::AwaitLiveFile => match event {
            OpenEvent::LiveFileChecked { result } => match result {
                Err(e) => exec_fail_read_only(classify_io_error(&e)),
                Ok(b) => (OpenPhase::AwaitNotice { live_existed: b }, OpenAction::LoadNotice),
            },
            _ => exec_fail_read_only(HistoryReadOnlyReason::Unknown),
        },
        OpenPhase::AwaitNotice { live_existed } => step_await_notice(live_existed, event),
        OpenPhase::AwaitQuarantineCheck { notice } => match event {
            OpenEvent::QuarantineChecked { present } => match present {
                None => exec_fail_read_only(HistoryReadOnlyReason::QuarantineFailed),
                Some(true) => exec_after_notice(Some(notice), false),
                Some(false) => exec_after_notice(None, true),
            },
            _ => exec_fail_read_only(HistoryReadOnlyReason::Unknown),
        },
        OpenPhase::AwaitReconcile => match event {
            OpenEvent::NoticeReconciled { notice } => match notice {
                None => exec_fail_read_only(HistoryReadOnlyReason::QuarantineFailed),
                Some(n) => exec_after_notice(Some(n), false),
            },
            _ => exec_fail_read_only(HistoryReadOnlyReason::Unknown),
        },
        OpenPhase::AwaitLiveAgain { notice } => match event {
            OpenEvent::LiveFileChecked { result } => match result {
                Err(e) => exec_fail_read_only(classify_io_error(&e)),
                Ok(exists) => if exists {
                    (OpenPhase::AwaitOpen { notice: Some(notice), stale: false }, OpenAction::OpenDatabase)
                } else {
                    exec_fail_fresh(notice.reason, notice.quarantine_path)
                },
            },
            _ => exec_fail_read_only(HistoryReadOnlyReason::Unknown),
        },
        OpenPhase::AwaitOpen { notice, stale } => match event {
            OpenEvent::DatabaseOpened { result } => step_await_open(notice, stale, result),
            _ => exec_fail_read_only(HistoryReadOnlyReason::Unknown),
        },
        OpenPhase::AwaitMarkRecovered { notice } => match event {
            OpenEvent::NoticeWritten { ok } => if ok {
                finish_recovered(notice.reason, notice.quarantine_path)
            } else {
                exec_fail_fresh(notice.reason, notice.quarantine_path)
            },
            _ => exec_fail_read_only(HistoryReadOnlyReason::Unknown),
        },
        OpenPhase::AwaitStaleRemoval => match event {
            OpenEvent::NoticeRemoved { outcome } => if outcome == RemovalOutcome::Failed {
                exec_fail_read_only(HistoryReadOnlyReason::QuarantineFailed)
            } else {
                (OpenPhase::Done, OpenAction::Finish { usable: true, health: HistoryHealthState::Healthy })
            },
            _ => exec_fail_read_only(HistoryReadOnlyReason::Unknown),
        },
        OpenPhase::AwaitQuarantine { reason } => match event {
            OpenEvent::Quarantined { path } => match path {
                None => exec_fail_read_only(HistoryReadOnlyReason::QuarantineFailed),
                Some(p) => (OpenPhase::AwaitFresh { reason, path: p }, OpenAction::CreateFreshDatabase),
            },
            _ => exec_fail_read_only(HistoryReadOnlyReason::Unknown),
        },
        OpenPhase::AwaitFresh { reason, path } => match event {
            OpenEvent::FreshCreated { ok } => step_await_fresh(reason, path, ok),
            _ => exec_fail_read_only(HistoryReadOnlyReason::Unknown),
        },
        OpenPhase::AwaitFreshNotice { reason, path } => match event {
            OpenEvent::NoticeWritten { ok } => if ok {
                finish_recovered(reason, path)
            } else {
                exec_fail_fresh(reason, path)
            },
            _ => exec_fail_read_only(HistoryReadOnlyReason::Unknown),
        },
        OpenPhase::Done => exec_fail_read_only(HistoryReadOnlyReason::Unknown),
    }
}

/// Only a confirmed corruption reported by opening the database leads to a
/// quarantine, with that corruption's reason, and never while an earlier
/// quarantine is still waiting for its fresh database.
pub proof fn lemma_quarantine_only_after_confirmed_corruption(phase: OpenPhase, event: OpenEvent)
    requires
        accepts_event(phase, event),
    ensures
        open_next(phase, event).1 matches OpenAction::QuarantineDatabase { reason } ==> {
            &&& phase matches OpenPhase::AwaitOpen { notice, .. }
            &&& !(phase->AwaitOpen_notice matches Some(n) && n.phase == RecoveryNoticePhase::Quarantined)
            &&& event matches OpenEvent::DatabaseOpened { result }
            &&& event->DatabaseOpened_result == Err::<(), HistoryOpenFailure>(
                HistoryOpenFailure::ConfirmedCorruption(reason),
            )
        },
{
}

/// A database that could only be opened read-only (busy, locked, denied, full,
/// failing I/O, incompatible) is reported read-only for that reason and never quarantined.
pub proof fn lemma_read_only_open_never_quarantines(
    notice: Option<RecoveryNotice>,
    stale: bool,
    reason: HistoryReadOnlyReason,
)
    requires
        reason != HistoryReadOnlyReason::FreshDatabaseFailed,
        !(notice matches Some(n) && n.phase == RecoveryNoticePhase::Quarantined),
    ensures
        open_next(
            OpenPhase::AwaitOpen { notice, stale },
            OpenEvent::DatabaseOpened { result: Err(HistoryOpenFailure::ReadOnly(reason)) },
        ) == fail_read_only(reason),
{
}

/// The database is handed over as usable only with a healthy or recovered
/// health, and a read-only health never names `FreshDatabaseFailed` as its reason.
pub proof fn lemma_finish_health_is_consistent(phase: OpenPhase, event: OpenEvent)
    requires
        accepts_event(phase, event),
    ensures
        open_next(phase, event).1 matches OpenAction::Finish { usable, health } ==> {
            &&& usable ==> (health is Healthy || health is Recovered)
            &&& !usable ==> (health is ReadOnly || health is FreshDatabaseFailed)
            &&& !(health matches HistoryHealthState::ReadOnly { reason } && reason
                == HistoryReadOnlyReason::FreshDatabaseFailed)
        },
{
}

/// Once a database was quarantined, every outcome reports that quarantine's
/// reason and path: a recovery when the fresh database and its notice are in
/// place, a fresh-database failure otherwise.
pub proof fn lemma_quarantine_context_is_kept(reason: RecoveryReason, path: String, ok: bool)
    ensures
        ({
            let action = open_next(
                OpenPhase::AwaitFresh { reason, path },
                OpenEvent::FreshCreated { ok },
            ).1;
            if ok {
                action matches OpenAction::WriteNotice { notice } && notice.reason == reason
                    && notice.quarantine_path == path && notice.phase == RecoveryNoticePhase::Recovered
            } else {
                action == OpenAction::Finish {
                    usable: false,
                    health: HistoryHealthState::FreshDatabaseFailed {
                        recovery_reason: reason,
                        quarantine_path: path,
                    },
                }
            }
        }),
        ({
            let action = open_next(
                OpenPhase::AwaitFreshNotice { reason, path },
                OpenEvent::NoticeWritten { ok },
            ).1;
            action matches OpenAction::Finish { usable, health } && usable == ok && if ok {
                health == HistoryHealthState::Recovered { reason, quarantine_path: path }
            } else {
                health == HistoryHealthState::FreshDatabaseFailed {
                    recovery_reason: reason,
                    quarantine_path: path,
                }
            }
        }),
{
}

/// A quarantine whose fresh database never opened is reported as a
/// fresh-database failure with its original reason and path, whatever
/// opening the live file now says; it is never quarantined again.
pub proof fn lemma_incomplete_recovery_is_not_quarantined_again(
    notice: RecoveryNotice,
    failure: HistoryOpenFailure,
)
    requires
        notice.phase == RecoveryNoticePhase::Quarantined,
    ensures
        open_next(
            OpenPhase::AwaitOpen { notice: Some(notice), stale: false },
            OpenEvent::DatabaseOpened { result: Err(failure) },
        ) == fail_fresh(notice.reason, notice.quarantine_path),
{
}

/// An unreadable or invalid notice fails closed: history is read-only and
/// the database is not opened.
pub proof fn lemma_unreadable_notice_fails_closed(live_existed: bool)
    ensures
        open_next(OpenPhase::AwaitNotice { live_existed }, OpenEvent::NoticeUnreadable)
            == fail_read_only(HistoryReadOnlyReason::QuarantineFailed),
{
}


/// The file a recovery notice is written to, in the data directory.
pub open spec fn recovery_notice_file_name() -> Seq<char> {
    "history-recovery-notice.json"@
}

/// The largest recovery notice read: 16 KiB.
pub const RECOVERY_NOTICE_MAX_BYTES: u64 = 16_384;

/// A directory name this store creates for a quarantine.
pub open spec fn owned_recovery_directory_name(name: Seq<char>) -> bool {
    let prefix = "history-recovery-"@;
    name.len() >= prefix.len() && name.take(prefix.len() as int) == prefix
}

/// Whether a directory name is one this store creates for a quarantine.
pub fn recovery_directory_name_is_owned(name: &str) -> (b: bool)
    ensures
        b == owned_recovery_directory_name(name@),
{
    proof {
        reveal_strlit("history-recovery-");
    }
    let n = name.unicode_len();
    if n < 17 {
        return false;
    }
    let head = name.substring_char(0, 17);
    assert(head@ =~= name@.take(17));
    text_eq(head, "history-recovery-")
}

/// Whether a loaded notice is one this store can act on: of the format it writes.
pub fn recovery_notice_version_ok(notice: &RecoveryNotice) -> (b: bool)
    ensures
        b == (notice.format_version == HISTORY_RECOVERY_NOTICE_VERSION),
{
    notice.format_version == HISTORY_RECOVERY_NOTICE_VERSION
}

/// What finishing an interrupted quarantine does with one database file.
#[derive(Clone, Copy, Debug, PartialEq, Eq, Structural)]
pub enum ReconcileMove {
    /// The file is still in the data directory: move it into the quarantine.
    MoveIntoQuarantine,
    /// The file is already quarantined: check it is the plain file it should be.
    CheckQuarantined,
    /// A side file that never existed: nothing to do.
    Nothing,
}

/// The move for one file of an interrupted quarantine, from where it exists:
/// in both places is a conflict, and the main file must exist in one of them.
pub open spec fn reconcile_move(is_main: bool, source_exists: bool, destination_exists: bool) -> Result<
    ReconcileMove,
    Seq<char>,
> {
    if source_exists && destination_exists {
        Err("历史数据库隔离状态冲突"@)
    } else if is_main && !source_exists && !destination_exists {
        Err("历史数据库隔离主文件缺失"@)
    } else if source_exists {
        Ok(ReconcileMove::MoveIntoQuarantine)
    } else if destination_exists {
        Ok(ReconcileMove::CheckQuarantined)
    } else {
        Ok(ReconcileMove::Nothing)
    }
}

/// Decides the move for one file of an interrupted quarantine (see [`reconcile_move`]).
pub fn reconcile_file(is_main: bool, source_exists: bool, destination_exists: bool) -> (out: Result<
    ReconcileMove,
    String,
>)
    ensures
        match reconcile_move(is_main, source_exists, destination_exists) {
            Ok(m) => out == Ok::<ReconcileMove, String>(m),
            Err(message) => out matches Err(e) && e@ == message,
        },
{
    if source_exists && destination_exists {
        Err(String::from_str("历史数据库隔离状态冲突"))
    } else if is_main && !source_exists && !destination_exists {
        Err(String::from_str("历史数据库隔离主文件缺失"))
    } else if source_exists {
        Ok(ReconcileMove::MoveIntoQuarantine)
    } else if destination_exists {
        Ok(ReconcileMove::CheckQuarantined)
    } else {
        Ok(ReconcileMove::Nothing)
    }
}

/// The notice an interrupted quarantine is reconciled to: a pending one
/// becomes quarantined (same reason and path); any other stays as it is.
pub fn reconciled_notice(notice: &RecoveryNotice) -> (out: RecoveryNotice)
    ensures
        notice.phase == RecoveryNoticePhase::Pending ==> out == notice_at(
            *notice,
            RecoveryNoticePhase::Quarantined,
        ),
        notice.phase != RecoveryNoticePhase::Pending ==> out == *notice,
{
    if notice.phase == RecoveryNoticePhase::Pending {
        RecoveryNotice {
            format_version: HISTORY_RECOVERY_NOTICE_VERSION,
            phase: RecoveryNoticePhase::Quarantined,
            reason: notice.reason,
            quarantine_path: notice.quarantine_path.clone(),
        }
    } else {
        copy_notice(notice)
    }
}

/// When the database opens, a recovery notice in force (one not waiting for
/// its fresh database) is reported: the open finishes usable with the
/// notice's reason and quarantine path. A notice still marked quarantined is
/// first marked recovered, and then reported the same way. Health is healthy
/// only when no notice is in force.
pub proof fn lemma_successful_open_reports_the_notice(n: RecoveryNotice, stale: bool, ok: bool)
    ensures
        n.phase != RecoveryNoticePhase::Quarantined ==> open_next(
            OpenPhase::AwaitOpen { notice: Some(n), stale },
            OpenEvent::DatabaseOpened { result: Ok(()) },
        ).1 == (OpenAction::Finish {
            usable: true,
            health: HistoryHealthState::Recovered { reason: n.reason, quarantine_path: n.quarantine_path },
        }),
        n.phase == RecoveryNoticePhase::Quarantined ==> open_next(
            OpenPhase::AwaitOpen { notice: Some(n), stale },
            OpenEvent::DatabaseOpened { result: Ok(()) },
        ).1 == (OpenAction::WriteNotice {
            notice: RecoveryNotice {
                format_version: HISTORY_RECOVERY_NOTICE_VERSION,
                phase: RecoveryNoticePhase::Recovered,
                reason: n.reason,
                quarantine_path: n.quarantine_path,
            },
        }),
        n.phase == RecoveryNoticePhase::Quarantined && ok ==> open_next(
            open_next(
                OpenPhase::AwaitOpen { notice: Some(n), stale },
                OpenEvent::DatabaseOpened { result: Ok(()) },
            ).0,
            OpenEvent::NoticeWritten { ok },
        ).1 == (OpenAction::Finish {
            usable: true,
            health: HistoryHealthState::Recovered { reason: n.reason, quarantine_path: n.quarantine_path },
        }),
        open_next(
            OpenPhase::AwaitOpen { notice: None, stale },
            OpenEvent::DatabaseOpened { result: Ok(()) },
        ).1 is Finish ==> open_next(
            OpenPhase::AwaitOpen { notice: None, stale },
            OpenEvent::DatabaseOpened { result: Ok(()) },
        ).1->Finish_health == HistoryHealthState::Healthy,
{
}

} // verus!
