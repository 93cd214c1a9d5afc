//! The decisions of a synchronization: which step follows which outcome,
//! and what the caller is told; and the advice printed around it.
use vstd::prelude::*;
use crate::text::{contains_text, occurs_in};
use vstd::string::StrSliceExecFns;

verus! {

/// Where a replica synchronizes to.
#[derive(Clone, Copy, Debug, PartialEq, Eq, Structural)]
pub enum SyncKind {
    /// No server: only the working set is rebuilt.
    NoServer,
    /// A server directory on the local disk.
    Local,
    /// A remote sync server.
    Remote,
    /// A Google Cloud Storage bucket.
    Gcp,
    /// An Amazon S3 bucket.
    Aws,
}

/// The step that a synchronization is at.
#[derive(Clone, Copy, Debug, PartialEq, Eq, Structural)]
pub enum SyncStage {
    /// Making the server connection.
    Connecting,
    /// Synchronizing the replica (or rebuilding its working set).
    Synchronizing,
    /// Counting the tasks after a successful synchronization, for the log.
    Reporting,
    /// Done, with the answer for the caller.
    Finished(bool),
}

/// What the caller should do next.
#[derive(Clone, Copy, Debug, PartialEq, Eq, Structural)]
pub enum SyncAction {
    /// Make the server connection.
    ConnectServer,
    /// Synchronize the replica with the server.
    RunSync,
    /// Rebuild the working set (synchronization without a server).
    RebuildWorkingSet,
    /// Count all tasks and pending tasks, for the log.
    CountTasks,
    /// Stop, and answer the given value.
    Finish(bool),
}

/// The outcome of the action last asked for.
#[derive(Clone, Copy, Debug, PartialEq, Eq, Structural)]
pub enum SyncEvent {
    Succeeded,
    Failed,
    /// The action panicked; the panic was caught.
    Panicked,
}

/// A synchronization in progress.
pub struct SyncSession {
    pub kind: SyncKind,
    pub stage: SyncStage,
}

/// True for the kinds that count the tasks after synchronizing.
pub open spec fn reports_counts(kind: SyncKind) -> bool {
    kind == SyncKind::Gcp || kind == SyncKind::Aws
}

/// The first step of a synchronization.
pub open spec fn initial_stage(kind: SyncKind) -> SyncStage {
    if kind == SyncKind::NoServer {
        SyncStage::Synchronizing
    } else {
        SyncStage::Connecting
    }
}

/// The step that follows an outcome.
pub open spec fn next_stage(kind: SyncKind, stage: SyncStage, ev: SyncEvent) -> SyncStage {
    match stage {
        SyncStage::Connecting => if ev == SyncEvent::Succeeded {
            SyncStage::Synchronizing
        } else {
            SyncStage::Finished(false)
        },
        SyncStage::Synchronizing => if ev != SyncEvent::Succeeded {
            SyncStage::Finished(false)
        } else if reports_counts(kind) {
            SyncStage::Reporting
        } else {
            SyncStage::Finished(true)
        },
        SyncStage::Reporting => SyncStage::Finished(ev != SyncEvent::Panicked),
        SyncStage::Finished(b) => SyncStage::Finished(b),
    }
}

/// The action that a step asks for.
pub open spec fn stage_action(kind: SyncKind, stage: SyncStage) -> SyncAction {
    match stage {
        SyncStage::Connecting => SyncAction::ConnectServer,
        SyncStage::Synchronizing => if kind == SyncKind::NoServer {
            SyncAction::RebuildWorkingSet
        } else {
            SyncAction::RunSync
        },
        SyncStage::Reporting => SyncAction::CountTasks,
        SyncStage::Finished(b) => SyncAction::Finish(b),
    }
}

/// The step reached after a sequence of outcomes.
pub open spec fn run_events(kind: SyncKind, stage: SyncStage, events: Seq<SyncEvent>) -> SyncStage
    decreases events.len(),
{
    if events.len() == 0 {
        stage
    } else {
        run_events(kind, next_stage(kind, stage, events[0]), events.drop_first())
    }
}

/// The outcomes with which a synchronization answers `true`: the
/// connection (when there is a server) and the synchronization succeed, and
/// counting the tasks afterwards, where it is done, does not panic.
pub open spec fn successful_events(kind: SyncKind, events: Seq<SyncEvent>) -> bool {
    if kind == SyncKind::NoServer {
        events.len() >= 1 && events[0] == SyncEvent::Succeeded
    } else if reports_counts(kind) {
        events.len() >= 3 && events[0] == SyncEvent::Succeeded && events[1] == SyncEvent::Succeeded
            && events[2] != SyncEvent::Panicked
    } else {
        events.len() >= 2 && events[0] == SyncEvent::Succeeded && events[1] == SyncEvent::Succeeded
    }
}

impl SyncSession {
    /// Starts a synchronization of the given kind, and says what to do first.
    pub fn new(kind: SyncKind) -> (r: (SyncSession, SyncAction))
        ensures
            r.0.kind == kind,
            r.0.stage == initial_stage(kind),
            r.1 == stage_action(kind, initial_stage(kind)),
    {
        let stage = match kind {
            SyncKind::NoServer => SyncStage::Synchronizing,
            _ => SyncStage::Connecting,
        };
        let action = match kind {
            SyncKind::NoServer => SyncAction::RebuildWorkingSet,
            _ => SyncAction::ConnectServer,
        };
        (SyncSession { kind, stage }, action)
    }

    /// Takes the outcome of the last action, and says what to do next.
    pub fn on_event(&mut self, ev: SyncEvent) -> (r: SyncAction)
        ensures
            final(self).kind == old(self).kind,
            final(self).stage == next_stage(old(self).kind, old(self).stage, ev),
            r == stage_action(final(self).kind, final(self).stage),
    {
        let reports = match self.kind {
            SyncKind::Gcp | SyncKind::Aws => true,
            _ => false,
        };
        let next = match self.stage {
            SyncStage::Connecting => match ev {
                SyncEvent::Succeeded => SyncStage::Synchronizing,
                _ => SyncStage::Finished(false),
            },
            SyncStage::Synchronizing => match ev {
                SyncEvent::Succeeded => if reports {
                    SyncStage::Reporting
                } else {
                    SyncStage::Finished(true)
                },
                _ => SyncStage::Finished(false),
            },
            SyncStage::Reporting => match ev {
                SyncEvent::Panicked => SyncStage::Finished(false),
                _ => SyncStage::Finished(true),
            },
            SyncStage::Finished(b) => SyncStage::Finished(b),
        };
        self.stage = next;
        match next {
            SyncStage::Connecting => SyncAction::ConnectServer,
            SyncStage::Synchronizing => match self.kind {
                SyncKind::NoServer => SyncAction::RebuildWorkingSet,
                _ => SyncAction::RunSync,
            },
            SyncStage::Reporting => SyncAction::CountTasks,
            SyncStage::Finished(b) => SyncAction::Finish(b),
        }
    }
}

/// A finished synchronization stays finished, with the same answer.
pub proof fn lemma_finished_is_final(kind: SyncKind, b: bool, events: Seq<SyncEvent>)
    ensures
        run_events(kind, SyncStage::Finished(b), events) == SyncStage::Finished(b),
    decreases events.len(),
{
    if events.len() > 0 {
        lemma_finished_is_final(kind, b, events.drop_first());
    }
}

/// A synchronization answers `true` exactly when its outcomes are the
/// successful ones, and `false` otherwise once it has finished.
pub proof fn lemma_sync_answer(kind: SyncKind, events: Seq<SyncEvent>)
    ensures
        run_events(kind, initial_stage(kind), events) == SyncStage::Finished(true) <==> successful_events(
            kind,
            events,
        ),
        events.len() >= 3 ==> run_events(kind, initial_stage(kind), events) is Finished,
{
    reveal_with_fuel(run_events, 4);
    if events.len() >= 1 {
        let e1 = events.drop_first();
        let s1 = next_stage(kind, initial_stage(kind), events[0]);
        if let SyncStage::Finished(b) = s1 {
            lemma_finished_is_final(kind, b, e1);
        } else if e1.len() >= 1 {
            let e2 = e1.drop_first();
            let s2 = next_stage(kind, s1, e1[0]);
            assert(e1[0] == events[1]);
            if let SyncStage::Finished(b) = s2 {
                lemma_finished_is_final(kind, b, e2);
            } else if e2.len() >= 1 {
                let e3 = e2.drop_first();
                let s3 = next_stage(kind, s2, e2[0]);
                assert(e2[0] == events[2]);
                if let SyncStage::Finished(b) = s3 {
                    lemma_finished_is_final(kind, b, e3);
                }
            }
        }
    }
}

/// The steps that a synchronization of the given kind can reach: one
/// without a server never connects and never reports.
pub open spec fn reachable_stage(kind: SyncKind, stage: SyncStage) -> bool {
    kind == SyncKind::NoServer ==> stage != SyncStage::Connecting && stage != SyncStage::Reporting
}

proof fn lemma_stays_reachable(kind: SyncKind, stage: SyncStage, events: Seq<SyncEvent>)
    requires
        reachable_stage(kind, stage),
    ensures
        reachable_stage(kind, run_events(kind, stage, events)),
    decreases events.len(),
{
    if events.len() > 0 {
        lemma_stays_reachable(kind, next_stage(kind, stage, events[0]), events.drop_first());
    }
}

/// What a synchronization asks of the caller, whatever the outcomes: one
/// with a server (local, remote, GCP or AWS) never asks only for the
/// working set to be rebuilt, and once its connection is made it asks to
/// synchronize the replica with that server; one without a server starts
/// by rebuilding the working set and never asks to connect or to
/// synchronize with a server.
pub proof fn lemma_sync_actions(kind: SyncKind, events: Seq<SyncEvent>)
    ensures
        kind != SyncKind::NoServer ==> stage_action(kind, run_events(kind, initial_stage(kind), events))
            != SyncAction::RebuildWorkingSet,
        kind != SyncKind::NoServer ==> stage_action(kind, initial_stage(kind)) == SyncAction::ConnectServer,
        kind != SyncKind::NoServer ==> stage_action(
            kind,
            next_stage(kind, initial_stage(kind), SyncEvent::Succeeded),
        ) == SyncAction::RunSync,
        kind == SyncKind::NoServer ==> stage_action(kind, initial_stage(kind))
            == SyncAction::RebuildWorkingSet,
        kind == SyncKind::NoServer ==> stage_action(kind, run_events(kind, initial_stage(kind), events))
            != SyncAction::ConnectServer,
        kind == SyncKind::NoServer ==> stage_action(kind, run_events(kind, initial_stage(kind), events))
            != SyncAction::RunSync,
{
    lemma_stays_reachable(kind, initial_stage(kind), events);
}

/// How strong an encryption secret is, by its length in bytes.
#[derive(Clone, Copy, Debug, PartialEq, Eq, Structural)]
pub enum SecretStrength {
    /// Under 16 bytes.
    VeryShort,
    /// 16 to 31 bytes: shorter than the recommended 32.
    Short,
    /// 32 bytes or more.
    Adequate,
}

/// Grades an encryption secret of `len` bytes.
pub fn secret_strength(len: usize) -> (r: SecretStrength)
    ensures
        r == (if len < 16 {
            SecretStrength::VeryShort
        } else if len < 32 {
            SecretStrength::Short
        } else {
            SecretStrength::Adequate
        }),
{
    if len < 16 {
        SecretStrength::VeryShort
    } else if len < 32 {
        SecretStrength::Short
    } else {
        SecretStrength::Adequate
    }
}

pub open spec fn unsealing_text() -> Seq<char> {
    seq!['u', 'n', 's', 'e', 'a', 'l', 'i', 'n', 'g']
}

pub open spec fn unspecified_text() -> Seq<char> {
    seq!['U', 'n', 's', 'p', 'e', 'c', 'i', 'f', 'i', 'e', 'd']
}

/// True when the text of a synchronization error points to an encryption
/// secret that does not match the server's data: it mentions `unsealing`
/// or `Unspecified`.
pub fn suggests_key_mismatch(error_text: &str) -> (r: bool)
    ensures
        r == (occurs_in(error_text@, unsealing_text()) || occurs_in(error_text@, unspecified_text())),
{
    proof {
        reveal_strlit("unsealing");
        reveal_strlit("Unspecified");
        assert("unsealing"@ =~= unsealing_text());
        assert("Unspecified"@ =~= unspecified_text());
    }
    contains_text(error_text, "unsealing") || contains_text(error_text, "Unspecified")
}

/// The part of an access key id that may be logged: its first eight
/// characters (all of it when shorter).
pub fn key_id_preview(id: &str) -> (r: String)
    ensures
        r@ == id@.take(if id@.len() < 8 { id@.len() as int } else { 8 }),
{
    let n = id.unicode_len();
    let end: usize = if n < 8 { n } else { 8 };
    let part = id.substring_char(0, end);
    assert(part@ =~= id@.take(end as int));
    part.to_owned()
}

} // verus!
