//! The decisions of quarantining a damaged database: publish the intent,
//! move each file into the quarantine directory, and on any failure move
//! back exactly what was moved, newest first, before withdrawing the intent.

use crate::health::{RecoveryNotice, RecoveryNoticePhase, HISTORY_RECOVERY_NOTICE_VERSION};
use crate::storage::RemovalOutcome;
use crate::types::RecoveryReason;
use vstd::prelude::*;
use vstd::string::*;

verus! {

/// The files to quarantine and where each goes, checked by the caller
/// beforehand: the live database first, then whichever side files exist.
#[derive(Debug)]
pub struct QuarantinePlan {
    pub reason: RecoveryReason,
    pub quarantine_path: String,
    pub sources: Vec<String>,
    pub destinations: Vec<String>,
}

/// A plan the machine can run: one destination per source, at least the live database.
pub open spec fn plan_ok(plan: QuarantinePlan) -> bool {
    plan.sources@.len() == plan.destinations@.len() && plan.sources@.len() >= 1
}

/// What failed before a rollback.
#[derive(Clone, Copy, Debug, PartialEq, Eq, Structural)]
pub enum RollbackCause {
    MoveFailed,
    NoticeFailed,
}

/// Where a quarantine stands.
#[derive(Debug)]
pub enum QuarantinePhase {
    AwaitPending,
    AwaitMove { index: usize },
    AwaitQuarantined,
    AwaitRollback { cause: RollbackCause },
    AwaitNoticeRemoval { cause: RollbackCause },
    AwaitDirectoryRemoval { message: String },
    Done,
}

/// What the caller does next.
#[derive(Debug)]
pub enum QuarantineAction {
    /// Publish this notice.
    PublishNotice { notice: RecoveryNotice },
    /// Move one file into the quarantine directory.
    MoveFile { source: String, destination: String },
    /// Attempt every move `(from, to)` in order, whether or not an earlier one fails.
    RollBack { moves: Vec<(String, String)> },
    /// Remove the published notice file.
    RemoveNoticeFile,
    /// Remove the quarantine directory (its outcome does not matter).
    RemoveDirectory,
    /// Stop with the quarantine directory, or the reason it failed.
    Finish { result: Result<String, String> },
}

/// What came of the last action.
#[derive(Debug)]
pub enum QuarantineEvent {
    NoticePublished { ok: bool },
    FileMoved { ok: bool },
    RolledBack { complete: bool },
    NoticeRemoved { outcome: RemovalOutcome },
    DirectoryRemoved,
}

/// The notice for this quarantine at `phase`.
pub open spec fn plan_notice(plan: QuarantinePlan, phase: RecoveryNoticePhase) -> RecoveryNotice {
    RecoveryNotice {
        format_version: HISTORY_RECOVERY_NOTICE_VERSION,
        phase,
        reason: plan.reason,
        quarantine_path: plan.quarantine_path,
    }
}

/// Undoing the first `count` moves: each destination back to its source, last moved first.
pub open spec fn undo_moves(plan: QuarantinePlan, count: int) -> Seq<(Seq<char>, Seq<char>)> {
    Seq::new(
        count as nat,
        |k: int| (plan.destinations@[count - 1 - k]@, plan.sources@[count - 1 - k]@),
    )
}

/// The message when the rollback after `cause` completed.
pub open spec fn rolled_back_message(cause: RollbackCause) -> Seq<char> {
    match cause {
        RollbackCause::MoveFailed => "无法隔离历史数据库文件"@,
        RollbackCause::NoticeFailed => "无法持久化历史数据库恢复通知"@,
    }
}

/// The message when the rollback after `cause` did not complete.
pub open spec fn incomplete_message(cause: RollbackCause) -> Seq<char> {
    match cause {
        RollbackCause::MoveFailed => "隔离历史数据库失败且无法完整回滚"@,
        RollbackCause::NoticeFailed => "恢复通知失败且无法完整回滚隔离文件"@,
    }
}

/// Whether `event` answers the action `phase` waits on.
pub open spec fn quarantine_accepts(plan: QuarantinePlan, phase: QuarantinePhase, event: QuarantineEvent) -> bool {
    match (phase, event) {
        (QuarantinePhase::AwaitPending, QuarantineEvent::NoticePublished { .. }) => true,
        (QuarantinePhase::AwaitMove { index }, QuarantineEvent::FileMoved { .. }) => index
            < plan.sources@.len(),
        (QuarantinePhase::AwaitQuarantined, QuarantineEvent::NoticePublished { .. }) => true,
        (QuarantinePhase::AwaitRollback { .. }, QuarantineEvent::RolledBack { .. }) => true,
        (QuarantinePhase::AwaitNoticeRemoval { .. }, QuarantineEvent::NoticeRemoved { .. }) => true,
        (QuarantinePhase::AwaitDirectoryRemoval { .. }, QuarantineEvent::DirectoryRemoved) => true,
        _ => false,
    }
}

/// What the action says, as plain values.
pub enum PlannedQuarantineAction {
    PublishNotice { notice: RecoveryNotice },
    MoveFile { source: Seq<char>, destination: Seq<char> },
    RollBack { moves: Seq<(Seq<char>, Seq<char>)> },
    RemoveNoticeFile,
    RemoveDirectory,
    Finish { result: Result<Seq<char>, Seq<char>> },
}

/// The plain values of an action.
pub open spec fn planned(action: QuarantineAction) -> PlannedQuarantineAction {
    match action {
        QuarantineAction::PublishNotice { notice } => PlannedQuarantineAction::PublishNotice { notice },
        QuarantineAction::MoveFile { source, destination } => PlannedQuarantineAction::MoveFile {
            source: source@,
            destination: destination@,
        },
        QuarantineAction::RollBack { moves } => PlannedQuarantineAction::RollBack {
            moves: moves@.map_values(|m: (String, String)| (m.0@, m.1@)),
        },
        QuarantineAction::RemoveNoticeFile => PlannedQuarantineAction::RemoveNoticeFile,
        QuarantineAction::RemoveDirectory => PlannedQuarantineAction::RemoveDirectory,
        QuarantineAction::Finish { result } => PlannedQuarantineAction::Finish {
            result: match result {
                Ok(p) => Ok(p@),
                Err(e) => Err(e@),
            },
        },
    }
}

/// The phase a step leads to, with messages as plain values.
pub enum PlannedQuarantinePhase {
    AwaitPending,
    AwaitMove { index: int },
    AwaitQuarantined,
    AwaitRollback { cause: RollbackCause },
    AwaitNoticeRemoval { cause: RollbackCause },
    AwaitDirectoryRemoval { message: Seq<char> },
    Done,
}

/// The plain values of a phase.
pub open spec fn planned_phase(phase: QuarantinePhase) -> PlannedQuarantinePhase {
    match phase {
        QuarantinePhase::AwaitPending => PlannedQuarantinePhase::AwaitPending,
        QuarantinePhase::AwaitMove { index } => PlannedQuarantinePhase::AwaitMove { index: index as int },
        QuarantinePhase::AwaitQuarantined => PlannedQuarantinePhase::AwaitQuarantined,
        QuarantinePhase::AwaitRollback { cause } => PlannedQuarantinePhase::AwaitRollback { cause },
        QuarantinePhase::AwaitNoticeRemoval { cause } => PlannedQuarantinePhase::AwaitNoticeRemoval { cause },
        QuarantinePhase::AwaitDirectoryRemoval { message } =>
        PlannedQuarantinePhase::AwaitDirectoryRemoval { message: message@ },
        QuarantinePhase::Done => PlannedQuarantinePhase::Done,
    }
}

/// The next phase and action after `event`.
pub open spec fn quarantine_next(plan: QuarantinePlan, phase: QuarantinePhase, event: QuarantineEvent) -> (
    PlannedQuarantinePhase,
    PlannedQuarantineAction,
) {
    let n = plan.sources@.len() as int;
    match (phase, event) {
        (QuarantinePhase::AwaitPending, QuarantineEvent::NoticePublished { ok }) => if ok {
            (
                PlannedQuarantinePhase::AwaitMove { index: 0 },
                PlannedQuarantineAction::MoveFile {
                    source: plan.sources@[0]@,
                    destination: plan.destinations@[0]@,
                },
            )
        } else {
            (
                PlannedQuarantinePhase::AwaitDirectoryRemoval { message: "无法持久化历史数据库隔离意图"@ },
                PlannedQuarantineAction::RemoveDirectory,
            )
        },
        (QuarantinePhase::AwaitMove { index }, QuarantineEvent::FileMoved { ok }) => if !ok {
            (
                PlannedQuarantinePhase::AwaitRollback { cause: RollbackCause::MoveFailed },
                PlannedQuarantineAction::RollBack { moves: undo_moves(plan, index as int) },
            )
        } else if index + 1 < n {
            (
                PlannedQuarantinePhase::AwaitMove { index: index + 1 },
                PlannedQuarantineAction::MoveFile {
                    source: plan.sources@[index + 1]@,
                    destination: plan.destinations@[index + 1]@,
                },
            )
        } else {
            (
                PlannedQuarantinePhase::AwaitQuarantined,
                PlannedQuarantineAction::PublishNotice {
                    notice: plan_notice(plan, RecoveryNoticePhase::Quarantined),
                },
            )
        },
        (QuarantinePhase::AwaitQuarantined, QuarantineEvent::NoticePublished { ok }) => if ok {
            (
                PlannedQuarantinePhase::Done,
                PlannedQuarantineAction::Finish { result: Ok(plan.quarantine_path@) },
            )
        } else {
            (
                PlannedQuarantinePhase::AwaitRollback { cause: RollbackCause::NoticeFailed },
                PlannedQuarantineAction::RollBack { moves: undo_moves(plan, n) },
            )
        },
        (QuarantinePhase::AwaitRollback { cause }, QuarantineEvent::RolledBack { complete }) => if complete {
            (
                PlannedQuarantinePhase::AwaitNoticeRemoval { cause },
                PlannedQuarantineAction::RemoveNoticeFile,
            )
        } else {
            (
                PlannedQuarantinePhase::Done,
                PlannedQuarantineAction::Finish { result: Err(incomplete_message(cause)) },
            )
        },
        (QuarantinePhase::AwaitNoticeRemoval { cause }, QuarantineEvent::NoticeRemoved { outcome }) =>
        if outcome == RemovalOutcome::Failed {
            (
                PlannedQuarantinePhase::Done,
                PlannedQuarantineAction::Finish { result: Err(rolled_back_message(cause)) },
            )
        } else {
            (
                PlannedQuarantinePhase::AwaitDirectoryRemoval { message: rolled_back_message(cause) },
                PlannedQuarantineAction::RemoveDirectory,
            )
        },
        (QuarantinePhase::AwaitDirectoryRemoval { message }, QuarantineEvent::DirectoryRemoved) => (
            PlannedQuarantinePhase::Done,
            PlannedQuarantineAction::Finish { result: Err(message@) },
        ),
        _ => (PlannedQuarantinePhase::Done, PlannedQuarantineAction::RemoveDirectory),
    }
}

/// The first step of a quarantine: publish the pending notice.
pub fn quarantine_start(plan: &QuarantinePlan) -> (out: (QuarantinePhase, QuarantineAction))
    ensures
        out.0 matches QuarantinePhase::AwaitPending,
        planned(out.1) == (PlannedQuarantineAction::PublishNotice {
            notice: plan_notice(*plan, RecoveryNoticePhase::Pending),
        }),
{
    (
        QuarantinePhase::AwaitPending,
        QuarantineAction::PublishNotice {
            notice: RecoveryNotice {
                format_version: HISTORY_RECOVERY_NOTICE_VERSION,
                phase: RecoveryNoticePhase::Pending,
                reason: plan.reason,
                quarantine_path: plan.quarantine_path.clone(),
            },
        },
    )
}

fn rollback_list(plan: &QuarantinePlan, count: usize) -> (out: Vec<(String, String)>)
    requires
        plan_ok(*plan),
        count <= plan.sources@.len(),
    ensures
        out@.map_values(|m: (String, String)| (m.0@, m.1@)) == undo_moves(*plan, count as int),
{
    let mut out: Vec<(String, String)> = Vec::new();
    let mut k: usize = 0;
    while k < count
        invariant
            plan_ok(*plan),
            count <= plan.sources@.len(),
            k <= count,
            out@.len() == k,
            forall|j: int|
                0 <= j < k ==> (#[trigger] out@[j]).0@ == plan.destinations@[count - 1 - j]@
                    && out@[j].1@ == plan.sources@[count - 1 - j]@,
        decreases count - k,
    {
        let i = count - 1 - k;
        out.push((plan.destinations[i].clone(), plan.sources[i].clone()));
        k = k + 1;
    }
    assert(out@.map_values(|m: (String, String)| (m.0@, m.1@)) =~= undo_moves(*plan, count as int));
    out
}

fn finish_error(message: &str) -> (out: (QuarantinePhase, QuarantineAction))
    ensures
        planned_phase(out.0) == PlannedQuarantinePhase::Done,
        planned(out.1) == (PlannedQuarantineAction::Finish { result: Err(message@) }),
{
    (QuarantinePhase::Done, QuarantineAction::Finish { result: Err(String::from_str(message)) })
}

fn rolled_back_text(cause: RollbackCause) -> (s: &'static str)
    ensures
        s@ == rolled_back_message(cause),
{
    match cause {
        RollbackCause::MoveFailed => "无法隔离历史数据库文件",
        RollbackCause::NoticeFailed => "无法持久化历史数据库恢复通知",
    }
}

fn incomplete_text(cause: RollbackCause) -> (s: &'static str)
    ensures
        s@ == incomplete_message(cause),
{
    match cause {
        RollbackCause::MoveFailed => "隔离历史数据库失败且无法完整回滚",
        RollbackCause::NoticeFailed => "恢复通知失败且无法完整回滚隔离文件",
    }
}

/// Whether `event` answers the action `phase` waits on (see [`quarantine_accepts`]).
pub fn quarantine_accepts_event(plan: &QuarantinePlan, phase: &QuarantinePhase, event: &QuarantineEvent) -> (b: bool)
    ensures
        b == quarantine_accepts(*plan, *phase, *event),
{
    match (phase, event) {
        (QuarantinePhase::AwaitPending, QuarantineEvent::NoticePublished { .. }) => true,
        (QuarantinePhase::AwaitMove { index }, QuarantineEvent::FileMoved { .. }) => *index
            < plan.sources.len(),
        (QuarantinePhase::AwaitQuarantined, QuarantineEvent::NoticePublished { .. }) => true,
        (QuarantinePhase::AwaitRollback { .. }, QuarantineEvent::RolledBack { .. }) => true,
        (QuarantinePhase::AwaitNoticeRemoval { .. }, QuarantineEvent::NoticeRemoved { .. }) => true,
        (QuarantinePhase::AwaitDirectoryRemoval { .. }, QuarantineEvent::DirectoryRemoved) => true,
        _ => false,
    }
}

/// Decides what follows `event` (see [`quarantine_next`]).
pub fn quarantine_step(plan: &QuarantinePlan, phase: QuarantinePhase, event: QuarantineEvent) -> (out: (
    QuarantinePhase,
    QuarantineAction,
))
    requires
        plan_ok(*plan),
        quarantine_accepts(*plan, phase, event),
    ensures
        (planned_phase(out.0), planned(out.1)) == quarantine_next(*plan, phase, event),
{
    let n = plan.sources.len();
    match phase {
        QuarantinePhase::AwaitPending => match event {
            QuarantineEvent::NoticePublished { ok } => if ok {
                (
                    QuarantinePhase::AwaitMove { index: 0 },
                    QuarantineAction::MoveFile {
                        source: plan.sources[0].clone(),
                        destination: plan.destinations[0].clone(),
                    },
                )
            } else {
                (
                    QuarantinePhase::AwaitDirectoryRemoval {
                        message: String::from_str("无法持久化历史数据库隔离意图"),
                    },
                    QuarantineAction::RemoveDirectory,
                )
            },
            _ => finish_error(""),
        },
        QuarantinePhase::AwaitMove { index } => match event {
            QuarantineEvent::FileMoved { ok } => if !ok {
                (
                    QuarantinePhase::AwaitRollback { cause: RollbackCause::MoveFailed },
                    QuarantineAction::RollBack { moves: rollback_list(plan, index) },
                )
            } else if index + 1 < n {
                (
                    QuarantinePhase::AwaitMove { index: index + 1 },
                    QuarantineAction::MoveFile {
                        source: plan.sources[index + 1].clone(),
                        destination: plan.destinations[index + 1].clone(),
                    },
                )
            } else {
                (
                    QuarantinePhase::AwaitQuarantined,
                    QuarantineAction::PublishNotice {
                        notice: RecoveryNotice {
                            format_version: HISTORY_RECOVERY_NOTICE_VERSION,
                            phase: RecoveryNoticePhase::Quarantined,
                            reason: plan.reason,
                            quarantine_path: plan.quarantine_path.clone(),
                        },
                    },
                )
            },
            _ => finish_error(""),
        },
        QuarantinePhase::AwaitQuarantined => match event {
            QuarantineEvent::NoticePublished { ok } => if ok {
                (QuarantinePhase::Done, QuarantineAction::Finish { result: Ok(plan.quarantine_path.clone()) })
            } else {
                (
                    QuarantinePhase::AwaitRollback { cause: RollbackCause::NoticeFailed },
                    QuarantineAction::RollBack { moves: rollback_list(plan, n) },
                )
            },
            _ => finish_error(""),
        },
        QuarantinePhase::AwaitRollback { cause } => match event {
            QuarantineEvent::RolledBack { complete } => if complete {
                (QuarantinePhase::AwaitNoticeRemoval { cause }, QuarantineAction::RemoveNoticeFile)
            } else {
                finish_error(incomplete_text(cause))
            },
            _ => finish_error(""),
        },
        QuarantinePhase::AwaitNoticeRemoval { cause } => match event {
            QuarantineEvent::NoticeRemoved { outcome } => if outcome == RemovalOutcome::Failed {
                finish_error(rolled_back_text(cause))
            } else {
                (
                    QuarantinePhase::AwaitDirectoryRemoval {
                        message: String::from_str(rolled_back_text(cause)),
                    },
                    QuarantineAction::RemoveDirectory,
                )
            },
            _ => finish_error(""),
        },
        QuarantinePhase::AwaitDirectoryRemoval { message } => match event {
            QuarantineEvent::DirectoryRemoved => (
                QuarantinePhase::Done,
                QuarantineAction::Finish { result: Err(message) },
            ),
            _ => finish_error(""),
        },
        QuarantinePhase::Done => finish_error(""),
    }
}

/// A failed move or a failed final notice is followed by moving back exactly
/// the files already moved, the most recent first.
pub proof fn lemma_rollback_undoes_exactly_the_moves_made(plan: QuarantinePlan, index: usize)
    requires
        plan_ok(plan),
        index < plan.sources@.len(),
    ensures
        quarantine_next(
            plan,
            (QuarantinePhase::AwaitMove { index }),
            (QuarantineEvent::FileMoved { ok: false }),
        ).1 == (PlannedQuarantineAction::RollBack { moves: undo_moves(plan, index as int) }),
        quarantine_next(
            plan,
            QuarantinePhase::AwaitQuarantined,
            (QuarantineEvent::NoticePublished { ok: false }),
        ).1 == (PlannedQuarantineAction::RollBack {
            moves: undo_moves(plan, plan.sources@.len() as int),
        }),
        forall|k: int|
            0 <= k < index ==> undo_moves(plan, index as int)[k] == (
                plan.destinations@[index - 1 - k]@,
                plan.sources@[index - 1 - k]@,
            ),
{
}

/// A quarantine succeeds only once every file was moved and the quarantined
/// notice was published, and it then reports the planned quarantine directory.
pub proof fn lemma_success_only_after_final_notice(plan: QuarantinePlan, phase: QuarantinePhase, event: QuarantineEvent)
    requires
        plan_ok(plan),
        quarantine_accepts(plan, phase, event),
    ensures
        quarantine_next(plan, phase, event).1 matches PlannedQuarantineAction::Finish { result }
            ==> (result is Ok ==> (phase is AwaitQuarantined && event == (
        QuarantineEvent::NoticePublished { ok: true }) && (result matches Ok(p) && p
            == plan.quarantine_path@))),
{
}

} // verus!
