//! How available the history store is, and how open failures are classified.

use crate::types::{HistoryReadOnlyReason, RecoveryReason};
use vstd::prelude::*;

verus! {

/// The state behind a [`HistoryHealth`].
#[derive(Clone, Debug)]
pub enum HistoryHealthState {
    Healthy,
    Recovered { reason: RecoveryReason, quarantine_path: String },
    ReadOnly { reason: HistoryReadOnlyReason },
    FreshDatabaseFailed { recovery_reason: RecoveryReason, quarantine_path: String },
}

/// Whether history is usable, recovered from a quarantined database, or read-only.
#[derive(Debug)]
pub struct HistoryHealth {
    state: HistoryHealthState,
}

impl HistoryHealth {
    /// A read-only health never names `FreshDatabaseFailed` as its plain
    /// reason: that failure always carries the quarantine it follows.
    #[verifier::type_invariant]
    spec fn well_formed(self) -> bool {
        !(self.state matches HistoryHealthState::ReadOnly { reason } && reason
            == HistoryReadOnlyReason::FreshDatabaseFailed)
    }

    /// The state this health reports.
    pub closed spec fn spec_state(self) -> HistoryHealthState {
        self.state
    }

    /// History opened normally.
    pub fn healthy() -> (h: Self)
        ensures
            h.spec_state() matches HistoryHealthState::Healthy,
    {
        HistoryHealth { state: HistoryHealthState::Healthy }
    }

    /// History was recovered after the database was quarantined at `quarantine_path`.
    pub fn recovered(reason: RecoveryReason, quarantine_path: String) -> (h: Self)
        ensures
            h.spec_state() matches HistoryHealthState::Recovered { reason: r, quarantine_path: p }
                && r == reason && p@ == quarantine_path@,
    {
        HistoryHealth { state: HistoryHealthState::Recovered { reason, quarantine_path } }
    }

    /// History is available read-only for `reason`.
    pub fn read_only(reason: HistoryReadOnlyReason) -> (h: Self)
        requires
            reason != HistoryReadOnlyReason::FreshDatabaseFailed,
        ensures
            h.spec_state() matches HistoryHealthState::ReadOnly { reason: r } && r == reason,
    {
        HistoryHealth { state: HistoryHealthState::ReadOnly { reason } }
    }

    /// The database was quarantined but no fresh one could be put in its place.
    pub fn fresh_database_failed(recovery_reason: RecoveryReason, quarantine_path: String) -> (h:
        Self)
        ensures
            h.spec_state() matches HistoryHealthState::FreshDatabaseFailed {
                recovery_reason: r,
                quarantine_path: p,
            } && r == recovery_reason && p@ == quarantine_path@,
    {
        HistoryHealth {
            state: HistoryHealthState::FreshDatabaseFailed { recovery_reason, quarantine_path },
        }
    }

    /// The same health again.
    pub fn duplicate(&self) -> (h: Self)
        ensures
            h.spec_state() == self.spec_state(),
    {
        proof {
            use_type_invariant(self);
        }
        let state = match &self.state {
            HistoryHealthState::Healthy => HistoryHealthState::Healthy,
            HistoryHealthState::Recovered { reason, quarantine_path } => HistoryHealthState::Recovered {
                reason: *reason,
                quarantine_path: quarantine_path.clone(),
            },
            HistoryHealthState::ReadOnly { reason } => HistoryHealthState::ReadOnly { reason: *reason },
            HistoryHealthState::FreshDatabaseFailed { recovery_reason, quarantine_path } =>
            HistoryHealthState::FreshDatabaseFailed {
                recovery_reason: *recovery_reason,
                quarantine_path: quarantine_path.clone(),
            },
        };
        HistoryHealth { state }
    }

    /// The state this health reports.
    pub fn state(&self) -> (s: &HistoryHealthState)
        ensures
            *s == self.spec_state(),
            !(*s matches HistoryHealthState::ReadOnly { reason } && reason
                == HistoryReadOnlyReason::FreshDatabaseFailed),
    {
        proof {
            use_type_invariant(self);
        }
        &self.state
    }
}

/// How far a recovery had got when its notice was written.
#[derive(Clone, Copy, Debug, PartialEq, Eq, Structural)]
pub enum RecoveryNoticePhase {
    Pending,
    Quarantined,
    Recovered,
}

/// The notice a recovery leaves beside the database.
#[derive(Clone, Debug)]
pub struct RecoveryNotice {
    pub format_version: u32,
    pub phase: RecoveryNoticePhase,
    pub reason: RecoveryReason,
    pub quarantine_path: String,
}

/// The notice format this store writes and reads.
pub const HISTORY_RECOVERY_NOTICE_VERSION: u32 = 1;

/// The health a recovery notice reports: recovered, for its reason and quarantine.
pub fn health_from_recovery_notice(notice: &RecoveryNotice) -> (h: HistoryHealth)
    ensures
        h.spec_state() matches HistoryHealthState::Recovered { reason, quarantine_path }
            && reason == notice.reason && quarantine_path@ == notice.quarantine_path@,
{
    HistoryHealth::recovered(notice.reason, notice.quarantine_path.clone())
}

/// Why opening the database failed: it is certainly damaged, or it can only be read.
#[derive(Clone, Copy, Debug, PartialEq, Eq, Structural)]
pub enum HistoryOpenFailure {
    ConfirmedCorruption(RecoveryReason),
    ReadOnly(HistoryReadOnlyReason),
}

/// The open failure an SQLite result code stands for, by its primary code
/// (the low byte): `CORRUPT` and `NOTADB` confirm damage; `BUSY`/`LOCKED`,
/// `READONLY`/`PERM`/`AUTH`, `FULL`, and `IOERR`/`CANTOPEN` make history
/// read-only for the matching reason; anything else is unknown.
pub open spec fn sqlite_failure(code: i32) -> HistoryOpenFailure {
    let primary = code & 0xff;
    if primary == 11 {
        HistoryOpenFailure::ConfirmedCorruption(RecoveryReason::Corrupt)
    } else if primary == 26 {
        HistoryOpenFailure::ConfirmedCorruption(RecoveryReason::NotADatabase)
    } else if primary == 5 || primary == 6 {
        HistoryOpenFailure::ReadOnly(HistoryReadOnlyReason::Busy)
    } else if primary == 8 || primary == 3 || primary == 23 {
        HistoryOpenFailure::ReadOnly(HistoryReadOnlyReason::PermissionDenied)
    } else if primary == 13 {
        HistoryOpenFailure::ReadOnly(HistoryReadOnlyReason::DiskFull)
    } else if primary == 10 || primary == 14 {
        HistoryOpenFailure::ReadOnly(HistoryReadOnlyReason::Io)
    } else {
        HistoryOpenFailure::ReadOnly(HistoryReadOnlyReason::Unknown)
    }
}

/// Classifies an SQLite result code (see [`sqlite_failure`]).
pub fn classify_sqlite_primary_code(code: i32) -> (f: HistoryOpenFailure)
    ensures
        f == sqlite_failure(code),
{
    let primary = code & 0xff;
    if primary == 11 {
        HistoryOpenFailure::ConfirmedCorruption(RecoveryReason::Corrupt)
    } else if primary == 26 {
        HistoryOpenFailure::ConfirmedCorruption(RecoveryReason::NotADatabase)
    } else if primary == 5 || primary == 6 {
        HistoryOpenFailure::ReadOnly(HistoryReadOnlyReason::Busy)
    } else if primary == 8 || primary == 3 || primary == 23 {
        HistoryOpenFailure::ReadOnly(HistoryReadOnlyReason::PermissionDenied)
    } else if primary == 13 {
        HistoryOpenFailure::ReadOnly(HistoryReadOnlyReason::DiskFull)
    } else if primary == 10 || primary == 14 {
        HistoryOpenFailure::ReadOnly(HistoryReadOnlyReason::Io)
    } else {
        HistoryOpenFailure::ReadOnly(HistoryReadOnlyReason::Unknown)
    }
}

/// Classifies an SQLite error by its extended result code, when it carries one
/// (an error that is not an SQLite failure is unknown).
pub fn classify_sqlite_error(extended_code: Option<i32>) -> (f: HistoryOpenFailure)
    ensures
        match extended_code {
            Some(code) => f == sqlite_failure(code),
            None => f == HistoryOpenFailure::ReadOnly(HistoryReadOnlyReason::Unknown),
        },
{
    match extended_code {
        Some(code) => classify_sqlite_primary_code(code),
        None => HistoryOpenFailure::ReadOnly(HistoryReadOnlyReason::Unknown),
    }
}

/// Damage is confirmed exactly for the primary codes `CORRUPT` (11) and `NOTADB` (26).
pub proof fn lemma_corruption_only_for_corrupt_or_notadb(code: i32)
    ensures
        (sqlite_failure(code) is ConfirmedCorruption) <==> ((code & 0xff) == 11 || (code & 0xff)
            == 26),
        sqlite_failure(code) != HistoryOpenFailure::ReadOnly(
            HistoryReadOnlyReason::FreshDatabaseFailed,
        ),
{
}

/// What the store reads of an I/O error: whether its kind is
/// `PermissionDenied`, and the operating system's error number, if any.
#[derive(Clone, Copy, Debug)]
pub struct IoFailure {
    pub permission_denied: bool,
    pub raw_os_error: Option<i32>,
}

/// The read-only reason for an I/O error: permission denied by its kind;
/// disk full for the Windows codes 39 (`ERROR_HANDLE_DISK_FULL`) and 112
/// (`ERROR_DISK_FULL`); otherwise a plain I/O failure.
pub open spec fn io_failure_reason(error: IoFailure) -> HistoryReadOnlyReason {
    if error.permission_denied {
        HistoryReadOnlyReason::PermissionDenied
    } else if error.raw_os_error == Some(39i32) || error.raw_os_error == Some(112i32) {
        HistoryReadOnlyReason::DiskFull
    } else {
        HistoryReadOnlyReason::Io
    }
}

/// Classifies an I/O error (see [`io_failure_reason`]).
pub fn classify_io_error(error: &IoFailure) -> (r: HistoryReadOnlyReason)
    ensures
        r == io_failure_reason(*error),
        r != HistoryReadOnlyReason::FreshDatabaseFailed,
{
    if error.permission_denied {
        HistoryReadOnlyReason::PermissionDenied
    } else {
        match error.raw_os_error {
            Some(code) => if code == 39 || code == 112 {
                HistoryReadOnlyReason::DiskFull
            } else {
                HistoryReadOnlyReason::Io
            },
            None => HistoryReadOnlyReason::Io,
        }
    }
}


/// The primary codes under which a failed schema check stays an SQLite
/// failure (and is classified by its code) rather than a contract failure.
pub open spec fn keeps_sqlite_failure(extended_code: Option<i32>) -> bool {
    match extended_code {
        Some(code) => {
            let primary = code & 0xff;
            primary == 11 || primary == 26 || primary == 5 || primary == 6 || primary == 8
                || primary == 3 || primary == 23 || primary == 13 || primary == 10 || primary == 14
        },
        None => false,
    }
}

/// Whether a failed schema check keeps its SQLite failure (see [`keeps_sqlite_failure`]).
pub fn contract_check_keeps_sqlite(extended_code: Option<i32>) -> (b: bool)
    ensures
        b == keeps_sqlite_failure(extended_code),
{
    match extended_code {
        Some(code) => {
            let primary = code & 0xff;
            primary == 11 || primary == 26 || primary == 5 || primary == 6 || primary == 8 || primary
                == 3 || primary == 23 || primary == 13 || primary == 10 || primary == 14
        },
        None => false,
    }
}

/// Why initialising the database failed: an SQLite failure (with its
/// extended code, when it has one, and message) or a broken data contract.
#[derive(Debug)]
pub enum HistoryInitializationFailure {
    Sqlite { extended_code: Option<i32>, message: String },
    Contract(String),
}

impl HistoryInitializationFailure {
    /// The open failure an initialisation failure stands for: an SQLite
    /// failure by its code, a contract failure as an incompatible database.
    pub fn open_failure(&self) -> (f: HistoryOpenFailure)
        ensures
            match self {
                HistoryInitializationFailure::Sqlite { extended_code, .. } => match extended_code {
                    Some(code) => f == sqlite_failure(*code),
                    None => f == HistoryOpenFailure::ReadOnly(HistoryReadOnlyReason::Unknown),
                },
                HistoryInitializationFailure::Contract(_) => f == HistoryOpenFailure::ReadOnly(
                    HistoryReadOnlyReason::Incompatible,
                ),
            },
    {
        match self {
            HistoryInitializationFailure::Sqlite { extended_code, .. } => classify_sqlite_error(*extended_code),
            HistoryInitializationFailure::Contract(_) => HistoryOpenFailure::ReadOnly(
                HistoryReadOnlyReason::Incompatible,
            ),
        }
    }

    /// The failure's message.
    pub fn message(&self) -> (m: &str)
        ensures
            match self {
                HistoryInitializationFailure::Sqlite { message, .. } => m@ == message@,
                HistoryInitializationFailure::Contract(message) => m@ == message@,
            },
    {
        match self {
            HistoryInitializationFailure::Sqlite { message, .. } => message.as_str(),
            HistoryInitializationFailure::Contract(message) => message.as_str(),
        }
    }
}

} // verus!
