//! Which databases the store may open, migrate, back up or restore from,
//! decided from the two numbers SQLite keeps in a database header:
//! `PRAGMA application_id` and `PRAGMA user_version`.

use crate::health::HistoryOpenFailure;
use crate::types::HistoryReadOnlyReason;
use crate::item::opt_view;
use crate::numbers::{i64_text, int_text};
use crate::text::string_from_chars;
use vstd::prelude::*;

verus! {

/// The application id stamped into every history database ("QPST").
pub const APPLICATION_ID: i64 = 0x5150_5354;

/// The schema version that the migrations bring a database to.
pub const SCHEMA_VERSION: i64 = 11;

/// What a database header says about the file.
#[derive(Clone, Copy, Debug, PartialEq, Eq, Structural)]
pub enum DatabaseIdentity {
    /// Ours, at the current schema version.
    Current,
    /// Blank or ours, at an older schema version: migrations bring it up.
    Migratable,
    /// Stamped by another application.
    ForeignApplication,
    /// Ours or blank, but written by a newer schema.
    NewerSchema,
}

pub open spec fn identity_of(application_id: i64, version: i64) -> DatabaseIdentity {
    if application_id == APPLICATION_ID && version == SCHEMA_VERSION {
        DatabaseIdentity::Current
    } else if application_id != 0 && application_id != APPLICATION_ID {
        DatabaseIdentity::ForeignApplication
    } else if version > SCHEMA_VERSION {
        DatabaseIdentity::NewerSchema
    } else {
        DatabaseIdentity::Migratable
    }
}

/// Classifies a database header.
pub fn classify_database_identity(application_id: i64, version: i64) -> (id: DatabaseIdentity)
    ensures
        id == identity_of(application_id, version),
{
    if application_id == APPLICATION_ID && version == SCHEMA_VERSION {
        DatabaseIdentity::Current
    } else if application_id != 0 && application_id != APPLICATION_ID {
        DatabaseIdentity::ForeignApplication
    } else if version > SCHEMA_VERSION {
        DatabaseIdentity::NewerSchema
    } else {
        DatabaseIdentity::Migratable
    }
}

/// Why the store refuses to initialise a database with this header, if it does.
pub open spec fn initialization_refusal(application_id: i64, version: i64) -> Option<Seq<char>> {
    match identity_of(application_id, version) {
        DatabaseIdentity::ForeignApplication => Some("不是 QuickPaste 历史数据库"@),
        DatabaseIdentity::NewerSchema => Some(
            "历史数据库版本 "@ + int_text(version as int) + " 高于当前版本"@,
        ),
        _ => None,
    }
}

/// The message with which initialisation refuses a database header: `None`
/// for a current database and for one that migrations can bring up.
pub fn initialization_error(application_id: i64, version: i64) -> (out: Option<String>)
    ensures
        opt_view(out) == initialization_refusal(application_id, version),
{
    match classify_database_identity(application_id, version) {
        DatabaseIdentity::ForeignApplication => Some(String::from_str("不是 QuickPaste 历史数据库")),
        DatabaseIdentity::NewerSchema => {
            let mut message = String::from_str("历史数据库版本 ");
            let digits = string_from_chars(&i64_text(version));
            message.append(digits.as_str());
            message.append(" 高于当前版本");
            Some(message)
        },
        _ => None,
    }
}

/// Opening the live database fails read-only on a header of another
/// application or of a newer schema; any other header may go on.
pub fn open_identity_failure(application_id: i64, version: i64) -> (out: Option<HistoryOpenFailure>)
    ensures
        out == (match identity_of(application_id, version) {
            DatabaseIdentity::ForeignApplication | DatabaseIdentity::NewerSchema => Some(
                HistoryOpenFailure::ReadOnly(HistoryReadOnlyReason::Incompatible),
            ),
            _ => None,
        }),
{
    match classify_database_identity(application_id, version) {
        DatabaseIdentity::ForeignApplication | DatabaseIdentity::NewerSchema => Some(
            HistoryOpenFailure::ReadOnly(HistoryReadOnlyReason::Incompatible),
        ),
        _ => None,
    }
}

/// Why a file chosen for a restore is refused before any migration: it must
/// carry this application's id (a blank header is refused too) and a schema
/// no newer than the current one.
pub open spec fn restore_source_refusal(application_id: i64, version: i64) -> Option<Seq<char>> {
    if application_id != APPLICATION_ID {
        Some("不是 QuickPaste 历史备份"@)
    } else if version > SCHEMA_VERSION {
        Some("历史恢复文件版本高于当前版本"@)
    } else {
        None
    }
}

/// The message with which a restore source is refused by its header, if it is.
pub fn restore_source_error(application_id: i64, version: i64) -> (out: Option<String>)
    ensures
        opt_view(out) == restore_source_refusal(application_id, version),
{
    if application_id != APPLICATION_ID {
        Some(String::from_str("不是 QuickPaste 历史备份"))
    } else if version > SCHEMA_VERSION {
        Some(String::from_str("历史恢复文件版本高于当前版本"))
    } else {
        None
    }
}

/// Whether a header is that of a current database of this application (what
/// a finished backup, a migrated restore snapshot and a staged one must show).
pub fn is_current_database(application_id: i64, version: i64) -> (b: bool)
    ensures
        b == (identity_of(application_id, version) == DatabaseIdentity::Current),
        b == (application_id == APPLICATION_ID && version == SCHEMA_VERSION),
{
    application_id == APPLICATION_ID && version == SCHEMA_VERSION
}

} // verus!
