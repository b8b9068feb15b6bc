//! Database files on disk: side files, temporary files the store owns and
//! cleans up, physical sizes, backup destinations and restore staging names.

use crate::external::{lowercase_str, str_lowercase};
use crate::ids::{lower_hex_64, restore_token_is_valid};
use crate::item::JS_MAX_SAFE_INTEGER_U64;
use crate::text::text_eq;
use crate::time::MAX_RETENTION_DAYS;
use crate::types::StorageStats;
use vstd::prelude::*;
use vstd::string::*;

verus! {

/// The name prefix of a restore staging file.
pub open spec fn restore_staging_prefix() -> Seq<char> {
    ".quickpaste-restore-"@
}

/// The name suffix of a restore staging file.
pub open spec fn restore_staging_suffix() -> Seq<char> {
    ".sqlite3"@
}

/// A path with `suffix` appended to its last component, as SQLite names side files.
pub fn path_with_suffix(path: &str, suffix: &str) -> (out: String)
    ensures
        out@ == path@ + suffix@,
{
    let mut value = String::from_str(path);
    value.append(suffix);
    value
}

/// The physical size of the database and its side files, or an error when it overflows.
pub fn checked_physical_total(database: u64, wal: u64, shm: u64) -> (out: Result<u64, String>)
    ensures
        database + wal + shm <= u64::MAX ==> out == Ok::<u64, String>((database + wal + shm) as u64),
        database + wal + shm > u64::MAX ==> (out matches Err(e) && e@
            == "历史数据库物理占用超出可表示范围"@),
{
    match database.checked_add(wal) {
        Some(total) => match total.checked_add(shm) {
            Some(total) => Ok(total),
            None => Err(String::from_str("历史数据库物理占用超出可表示范围")),
        },
        None => Err(String::from_str("历史数据库物理占用超出可表示范围")),
    }
}

/// What removing one file came to.
#[derive(Clone, Copy, Debug, PartialEq, Eq, Structural)]
pub enum RemovalOutcome {
    Removed,
    NotFound,
    Failed,
}

/// A database file the store created and must clean up unless it was published.
#[derive(Debug)]
pub struct OwnedTemporaryFile {
    path: String,
    published: bool,
}

/// The files a cleanup removes, in order: the main file (when asked for and
/// not published), then its `-wal`, `-shm` and `-journal` side files.
pub open spec fn cleanup_target_paths(path: Seq<char>, published: bool, include_main: bool) -> Seq<
    Seq<char>,
> {
    (if include_main && !published {
        seq![path]
    } else {
        seq![]
    }) + seq![path + "-wal"@, path + "-shm"@, path + "-journal"@]
}

impl OwnedTemporaryFile {
    /// The file's path.
    pub closed spec fn spec_path(&self) -> Seq<char> {
        self.path@
    }

    /// Whether the file was published (moved into place), so it is no longer ours to remove.
    pub closed spec fn spec_published(&self) -> bool {
        self.published
    }

    /// Takes ownership of a temporary file at `path`.
    pub fn new(path: String) -> (f: Self)
        ensures
            f.spec_path() == path@,
            !f.spec_published(),
    {
        OwnedTemporaryFile { path, published: false }
    }

    /// Records that the file was published, so cleanup keeps the main file.
    pub fn mark_published(&mut self)
        ensures
            final(self).spec_published(),
            final(self).spec_path() == old(self).spec_path(),
    {
        self.published = true;
    }

    /// The file's path.
    pub fn path(&self) -> (p: &str)
        ensures
            p@ == self.spec_path(),
    {
        self.path.as_str()
    }

    /// Whether the file was published.
    pub fn is_published(&self) -> (b: bool)
        ensures
            b == self.spec_published(),
    {
        self.published
    }

    /// The files a cleanup removes, in order (see [`cleanup_target_paths`]).
    pub fn cleanup_targets(&self, include_main: bool) -> (out: Vec<String>)
        ensures
            out@.len() == cleanup_target_paths(self.spec_path(), self.spec_published(), include_main).len(),
            forall|i: int|
                0 <= i < out@.len() ==> (#[trigger] out@[i])@ == cleanup_target_paths(
                    self.spec_path(),
                    self.spec_published(),
                    include_main,
                )[i],
    {
        let mut out: Vec<String> = Vec::new();
        if include_main && !self.published {
            out.push(self.path.clone());
        }
        out.push(path_with_suffix(self.path.as_str(), "-wal"));
        out.push(path_with_suffix(self.path.as_str(), "-shm"));
        out.push(path_with_suffix(self.path.as_str(), "-journal"));
        out
    }

    /// The result of a cleanup, given what removing each target came to: it
    /// fails when any removal failed for a reason other than the file being absent.
    pub fn cleanup_with(&self, include_main: bool, outcomes: &[RemovalOutcome]) -> (out: Result<
        (),
        String,
    >)
        requires
            outcomes@.len() == cleanup_target_paths(self.spec_path(), self.spec_published(), include_main).len(),
        ensures
            out is Ok <==> !outcomes@.contains(RemovalOutcome::Failed),
            out matches Err(e) ==> e@ == "无法清理历史数据库临时文件"@,
    {
        let mut failed = false;
        let mut i: usize = 0;
        while i < outcomes.len()
            invariant
                i <= outcomes@.len(),
                failed <==> exists|k: int|
                    0 <= k < i && #[trigger] outcomes@[k] == RemovalOutcome::Failed,
            decreases outcomes@.len() - i,
        {
            if outcomes[i] == RemovalOutcome::Failed {
                failed = true;
            }
            i = i + 1;
        }
        if failed {
            Err(String::from_str("无法清理历史数据库临时文件"))
        } else {
            Ok(())
        }
    }
}

/// Whether two canonical paths name the same file: compared after Unicode
/// lower-casing where the file system ignores case (Windows), exactly elsewhere.
pub open spec fn same_canonical_path(left: Seq<char>, right: Seq<char>, ignore_case: bool) -> bool {
    if ignore_case {
        str_lowercase(left) == str_lowercase(right)
    } else {
        left == right
    }
}

/// Whether two canonical paths name the same file (see [`same_canonical_path`]).
pub fn canonical_paths_equal(left: &str, right: &str, ignore_case: bool) -> (b: bool)
    ensures
        b == same_canonical_path(left@, right@, ignore_case),
{
    if ignore_case {
        let l = lowercase_str(left);
        let r = lowercase_str(right);
        text_eq(l.as_str(), r.as_str())
    } else {
        text_eq(left, right)
    }
}

/// `name` without its first matching side-file suffix (`-wal`, `-shm`, `-journal`).
pub open spec fn without_side_suffix(name: Seq<char>) -> Seq<char> {
    if name.len() >= 4 && name.skip(name.len() - 4) == "-wal"@ {
        name.take(name.len() - 4)
    } else if name.len() >= 4 && name.skip(name.len() - 4) == "-shm"@ {
        name.take(name.len() - 4)
    } else if name.len() >= 8 && name.skip(name.len() - 8) == "-journal"@ {
        name.take(name.len() - 8)
    } else {
        name
    }
}

/// The staging main-file name a directory entry belongs to: the entry (or
/// the file it is a side file of) must be `.quickpaste-restore-<token>.sqlite3`
/// with a valid restore token.
pub open spec fn staging_main_name(name: Seq<char>) -> Option<Seq<char>> {
    let main = without_side_suffix(name);
    let p = restore_staging_prefix();
    let s = restore_staging_suffix();
    if main.len() >= p.len() + s.len() && main.take(p.len() as int) == p && main.skip(
        main.len() - s.len(),
    ) == s && lower_hex_64(main.subrange(p.len() as int, main.len() - s.len())) {
        Some(main)
    } else {
        None
    }
}

fn ends_with(name: &str, suffix: &str) -> (b: bool)
    ensures
        b == (name@.len() >= suffix@.len() && name@.skip(name@.len() - suffix@.len()) == suffix@),
{
    let n = name.unicode_len();
    let k = suffix.unicode_len();
    if n < k {
        return false;
    }
    let tail = name.substring_char(n - k, n);
    assert(tail@ =~= name@.skip(n - k));
    text_eq(tail, suffix)
}

fn starts_with(name: &str, prefix: &str) -> (b: bool)
    ensures
        b == (name@.len() >= prefix@.len() && name@.take(prefix@.len() as int) == prefix@),
{
    let n = name.unicode_len();
    let k = prefix.unicode_len();
    if n < k {
        return false;
    }
    let head = name.substring_char(0, k);
    assert(head@ =~= name@.take(k as int));
    text_eq(head, prefix)
}

/// The staging main-file name a directory entry belongs to, if it is one of ours.
pub fn restore_staging_main_name(name: &str) -> (out: Option<String>)
    ensures
        match out {
            Some(main) => staging_main_name(name@) == Some(main@),
            None => staging_main_name(name@) is None,
        },
{
    proof {
        reveal_strlit("-wal");
        reveal_strlit("-shm");
        reveal_strlit("-journal");
        reveal_strlit(".quickpaste-restore-");
        reveal_strlit(".sqlite3");
    }
    let n = name.unicode_len();
    let main: &str = if ends_with(name, "-wal") {
        name.substring_char(0, n - 4)
    } else if ends_with(name, "-shm") {
        name.substring_char(0, n - 4)
    } else if ends_with(name, "-journal") {
        name.substring_char(0, n - 8)
    } else {
        name
    };
    assert(main@ == without_side_suffix(name@));
    let m = main.unicode_len();
    if !starts_with(main, ".quickpaste-restore-") || !ends_with(main, ".sqlite3") || m < 28 {
        return None;
    }
    let token = main.substring_char(20, m - 8);
    if restore_token_is_valid(token) {
        Some(String::from_str(main))
    } else {
        None
    }
}

/// A failed restore preparation: its message, and the staging file it leaves to clean up.
#[derive(Debug)]
pub struct PrepareHistoryRestoreFailure {
    pub message: String,
    pub staging: Option<OwnedTemporaryFile>,
}

impl PrepareHistoryRestoreFailure {
    /// A failure before any staging file existed.
    pub fn without_staging(message: String) -> (f: Self)
        ensures
            f.message@ == message@,
            f.staging is None,
    {
        PrepareHistoryRestoreFailure { message, staging: None }
    }

    /// A failure that leaves `staging` to clean up.
    pub fn with_staging(message: String, staging: OwnedTemporaryFile) -> (f: Self)
        ensures
            f.message@ == message@,
            f.staging matches Some(s) && s.spec_path() == staging.spec_path()
                && s.spec_published() == staging.spec_published(),
    {
        PrepareHistoryRestoreFailure { message, staging: Some(staging) }
    }

    /// The failure's message.
    pub fn into_message(self) -> (m: String)
        ensures
            m@ == self.message@,
    {
        self.message
    }
}


/// Storage statistics the user interface can hold: every count and size a
/// safe JavaScript integer, and a retention within 0 to 730 000 days.
pub open spec fn stats_problem(stats: StorageStats) -> Option<Seq<char>> {
    if stats.database_bytes > JS_MAX_SAFE_INTEGER_U64 || stats.wal_bytes > JS_MAX_SAFE_INTEGER_U64
        || stats.shm_bytes > JS_MAX_SAFE_INTEGER_U64 || stats.total_physical_bytes
        > JS_MAX_SAFE_INTEGER_U64 || stats.record_count > JS_MAX_SAFE_INTEGER_U64
        || stats.pinned_count > JS_MAX_SAFE_INTEGER_U64 || stats.permanent_count
        > JS_MAX_SAFE_INTEGER_U64 || stats.image_bytes > JS_MAX_SAFE_INTEGER_U64
        || stats.rich_format_bytes > JS_MAX_SAFE_INTEGER_U64 || stats.file_record_count
        > JS_MAX_SAFE_INTEGER_U64 || stats.logical_bytes > JS_MAX_SAFE_INTEGER_U64
        || stats.max_records > JS_MAX_SAFE_INTEGER_U64 || stats.max_image_bytes
        > JS_MAX_SAFE_INTEGER_U64 {
        Some("历史存储统计超出前端安全整数范围"@)
    } else if stats.retention_days matches Some(days) && !(0 <= days <= MAX_RETENTION_DAYS) {
        Some("历史存储策略超出前端安全整数范围"@)
    } else {
        None
    }
}

/// Refuses statistics the user interface cannot hold exactly (see [`stats_problem`]).
pub fn validate_storage_stats(stats: &StorageStats) -> (out: Result<(), String>)
    ensures
        match stats_problem(*stats) {
            Some(message) => out matches Err(e) && e@ == message,
            None => out is Ok,
        },
{
    let limit = JS_MAX_SAFE_INTEGER_U64;
    if stats.database_bytes > limit || stats.wal_bytes > limit || stats.shm_bytes > limit
        || stats.total_physical_bytes > limit || stats.record_count > limit || stats.pinned_count
        > limit || stats.permanent_count > limit || stats.image_bytes > limit
        || stats.rich_format_bytes > limit || stats.file_record_count > limit
        || stats.logical_bytes > limit || stats.max_records > limit || stats.max_image_bytes
        > limit {
        return Err(String::from_str("历史存储统计超出前端安全整数范围"));
    }
    if let Some(days) = stats.retention_days {
        if days < 0 || days > MAX_RETENTION_DAYS {
            return Err(String::from_str("历史存储策略超出前端安全整数范围"));
        }
    }
    Ok(())
}

} // verus!
