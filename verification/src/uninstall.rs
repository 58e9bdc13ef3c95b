//! The uninstallation flow, as a state machine, and the deferred cleanup
//! action.
//!
//! A running executable cannot delete its own backing file, so the flow ends
//! by launching a detached one-shot action that waits briefly, removes the
//! install directory recursively and then deletes its own transient file.
//! The machine decides each step; a driver performs the outside effects and
//! feeds the outcome back. The cleanup action is composed here, and it is
//! only reached when the install directory was found to exist.
use vstd::prelude::*;
use vstd::pervasive::unreached;
use vstd::string::StringSliceAdditionalSpecFns;
use crate::errors::Error;
use crate::location::path_join;
use crate::location::SEPARATOR;
use crate::path_list::spec_remove;

verus! {

/// The name of the transient file that carries the cleanup action.
pub open spec fn script_name() -> Seq<u8> {
    "lcli_deleter.bat".spec_bytes()
}

/// The content of the one-shot cleanup action: a short fixed delay, then
/// recursive forced removal of the install directory, then removal of the
/// action's own file.
pub open spec fn spec_deleter_script(install_dir: Seq<u8>, script_path: Seq<u8>) -> Seq<u8> {
    "@echo off\ntimeout /t 1 /nobreak > nul\nrd /s /q \"".spec_bytes() + install_dir
        + "\"\ndel \"".spec_bytes() + script_path + "\"\n".spec_bytes()
}

/// Compose the cleanup action for an install directory and the transient
/// file it will live in.
pub fn deleter_script(install_dir: &[u8], script_path: &[u8]) -> (r: Vec<u8>)
    ensures
        r@ == spec_deleter_script(install_dir@, script_path@),
{
    let mut out: Vec<u8> = Vec::new();
    out.extend_from_slice("@echo off\ntimeout /t 1 /nobreak > nul\nrd /s /q \"".as_bytes());
    out.extend_from_slice(install_dir);
    out.extend_from_slice("\"\ndel \"".as_bytes());
    out.extend_from_slice(script_path);
    out.extend_from_slice("\"\n".as_bytes());
    proof {
        assert(out@ =~= spec_deleter_script(install_dir@, script_path@));
    }
    out
}

/// Where an uninstallation stands: the outside effect it waits for, or how
/// it ended.
pub enum UninstallStage {
    /// Waiting to learn whether the install directory exists.
    CheckDir,
    /// Waiting for the persisted path list to be read.
    ReadList,
    /// Waiting for the pending new list to be written back.
    WriteList(Vec<u8>),
    /// Waiting for the cleanup action to be written out and launched,
    /// detached.
    Schedule,
    /// Finished; the flag is false when there was nothing to do.
    Done(bool),
    /// Aborted with the given error.
    Failed(Error),
}

/// The outside effect a driver must perform for a stage.
#[derive(Clone, Copy, Debug, PartialEq, Eq, Structural)]
pub enum UninstallAction {
    /// Does the install directory exist?
    CheckDir,
    /// Read the persisted path list; a missing value reads as empty.
    ReadList,
    /// Write the pending list back to the store.
    WriteList,
    /// Write the cleanup action to its transient file and launch it,
    /// detached and not waited on.
    Schedule,
}

/// The outcome of the action a driver performed.
pub enum UninstallEvent {
    /// Answer to `CheckDir`: the install directory exists, or not.
    Checked(bool),
    /// Answer to `ReadList`: the current persisted list.
    ListRead(Vec<u8>),
    /// Answer to `ReadList`: the store could not be opened.
    ListUnavailable,
    /// `WriteList` or `Schedule` succeeded.
    Succeeded,
    /// `WriteList` or `Schedule` failed.
    Failed,
}

/// Which events can answer which stage.
pub open spec fn uninstall_event_fits(stage: UninstallStage, e: UninstallEvent) -> bool {
    match stage {
        UninstallStage::CheckDir => e is Checked,
        UninstallStage::ReadList => e is ListRead || e is ListUnavailable,
        UninstallStage::WriteList(_) => e is Succeeded || e is Failed,
        UninstallStage::Schedule => e is Succeeded || e is Failed,
        UninstallStage::Done(_) => false,
        UninstallStage::Failed(_) => false,
    }
}

/// One uninstallation in progress.
pub struct UninstallFlow {
    /// The install directory to deregister and remove.
    pub install_dir: Vec<u8>,
    /// The transient file that will carry the cleanup action.
    pub script_path: Vec<u8>,
    /// The composed cleanup action.
    pub script: Vec<u8>,
    /// Where the run stands.
    pub stage: UninstallStage,
}

impl UninstallFlow {
    /// Begin an uninstallation. The caller has already obtained an explicit
    /// affirmative confirmation: the flow is destructive.
    pub fn new(install_dir: &[u8], temp_dir: &[u8]) -> (r: UninstallFlow)
        ensures
            r.install_dir@ == install_dir@,
            r.script_path@ == temp_dir@ + seq![SEPARATOR] + script_name(),
            r.script@ == spec_deleter_script(
                install_dir@,
                temp_dir@ + seq![SEPARATOR] + script_name(),
            ),
            r.stage is CheckDir,
    {
        let script_path = path_join(temp_dir, "lcli_deleter.bat".as_bytes());
        let script = deleter_script(install_dir, script_path.as_slice());
        UninstallFlow {
            install_dir: vstd::slice::slice_to_vec(install_dir),
            script_path,
            script,
            stage: UninstallStage::CheckDir,
        }
    }

    /// The outside effect the driver must perform next; nothing once the run
    /// is over.
    pub fn action(&self) -> (r: Option<UninstallAction>)
        ensures
            self.stage is CheckDir ==> r == Some(UninstallAction::CheckDir),
            self.stage is ReadList ==> r == Some(UninstallAction::ReadList),
            self.stage is WriteList ==> r == Some(UninstallAction::WriteList),
            self.stage is Schedule ==> r == Some(UninstallAction::Schedule),
            self.stage is Done || self.stage is Failed <==> r is None,
    {
        match &self.stage {
            UninstallStage::CheckDir => Some(UninstallAction::CheckDir),
            UninstallStage::ReadList => Some(UninstallAction::ReadList),
            UninstallStage::WriteList(_) => Some(UninstallAction::WriteList),
            UninstallStage::Schedule => Some(UninstallAction::Schedule),
            UninstallStage::Done(_) => None,
            UninstallStage::Failed(_) => None,
        }
    }

    /// Advance by the outcome of the last action. The full transition table:
    /// a missing install directory ends the run successfully with nothing to
    /// do; the persisted list is written only when the removal changed it;
    /// the cleanup action is scheduled only after the deregistration, and so
    /// only when the install directory was found to exist.
    pub fn step(self, e: UninstallEvent) -> (r: UninstallFlow)
        requires
            uninstall_event_fits(self.stage, e),
        ensures
            r.install_dir@ == self.install_dir@,
            r.script_path@ == self.script_path@,
            r.script@ == self.script@,
            self.stage is CheckDir && e == UninstallEvent::Checked(true) ==> r.stage
                is ReadList,
            self.stage is CheckDir && e == UninstallEvent::Checked(false) ==> r.stage
                == UninstallStage::Done(false),
            self.stage is ReadList ==> (e matches UninstallEvent::ListRead(l) ==> (
            if spec_remove(l@, self.install_dir@) == l@ {
                r.stage is Schedule
            } else {
                r.stage matches UninstallStage::WriteList(p) && p@ == spec_remove(
                    l@,
                    self.install_dir@,
                )
            })),
            self.stage is ReadList && e is ListUnavailable ==> (r.stage
                matches UninstallStage::Failed(x) && x == Error::PathListAccess),
            self.stage is WriteList && e is Succeeded ==> r.stage is Schedule,
            self.stage is WriteList && e is Failed ==> (r.stage
                matches UninstallStage::Failed(x) && x == Error::PathListAccess),
            self.stage is Schedule && e is Succeeded ==> r.stage == UninstallStage::Done(true),
            self.stage is Schedule && e is Failed ==> (r.stage
                matches UninstallStage::Failed(x) && x == Error::Io),
            r.stage is WriteList ==> self.stage is ReadList,
            r.stage is Schedule ==> self.stage is ReadList || self.stage is WriteList,
            stage_follows(self.stage, r.stage),
    {
        let UninstallFlow { install_dir, script_path, script, stage } = self;
        let new_stage = match stage {
            UninstallStage::CheckDir => match e {
                UninstallEvent::Checked(true) => UninstallStage::ReadList,
                UninstallEvent::Checked(false) => UninstallStage::Done(false),
                _ => unreached(),
            },
            UninstallStage::ReadList => match e {
                UninstallEvent::ListRead(l) => {
                    let (new_list, changed) = crate::path_list::remove(
                        l.as_slice(),
                        install_dir.as_slice(),
                    );
                    if changed {
                        UninstallStage::WriteList(new_list)
                    } else {
                        UninstallStage::Schedule
                    }
                },
                UninstallEvent::ListUnavailable => UninstallStage::Failed(Error::PathListAccess),
                _ => unreached(),
            },
            UninstallStage::WriteList(_) => match e {
                UninstallEvent::Succeeded => UninstallStage::Schedule,
                UninstallEvent::Failed => UninstallStage::Failed(Error::PathListAccess),
                _ => unreached(),
            },
            UninstallStage::Schedule => match e {
                UninstallEvent::Succeeded => UninstallStage::Done(true),
                UninstallEvent::Failed => UninstallStage::Failed(Error::Io),
                _ => unreached(),
            },
            UninstallStage::Done(_) => unreached(),
            UninstallStage::Failed(_) => unreached(),
        };
        UninstallFlow { install_dir, script_path, script, stage: new_stage }
    }
}

/// The stage graph of the machine: which stage can follow which, whatever
/// the events were.
pub open spec fn stage_follows(s1: UninstallStage, s2: UninstallStage) -> bool {
    match s1 {
        UninstallStage::CheckDir => s2 is ReadList || s2 == UninstallStage::Done(false),
        UninstallStage::ReadList => s2 is WriteList || s2 is Schedule || s2
            == UninstallStage::Failed(Error::PathListAccess),
        UninstallStage::WriteList(_) => s2 is Schedule || s2 == UninstallStage::Failed(
            Error::PathListAccess,
        ),
        UninstallStage::Schedule => s2 == UninstallStage::Done(true) || s2
            == UninstallStage::Failed(Error::Io),
        UninstallStage::Done(_) => false,
        UninstallStage::Failed(_) => false,
    }
}

/// A run of the machine: it begins at the beginning, and each stage follows
/// from the one before it, as `step` guarantees.
pub open spec fn is_run(tr: Seq<UninstallStage>) -> bool {
    &&& tr.len() > 0
    &&& tr[0] is CheckDir
    &&& forall|k: int| 0 <= k < tr.len() - 1 ==> stage_follows(tr[k], #[trigger] tr[k + 1])
}

/// The cleanup action is only scheduled when the install directory was found
/// to exist: in any run that reaches the scheduling stage, the opening
/// directory check was answered with "it exists" (its successor is the list
/// read, not the nothing-to-do end), and the deregistration came first.
pub proof fn lemma_schedule_only_after_existence_check(tr: Seq<UninstallStage>, k: int)
    requires
        is_run(tr),
        0 <= k < tr.len(),
        tr[k] is Schedule,
    ensures
        k >= 2,
        tr[0] is CheckDir && tr[1] is ReadList,
{
    assert(k > 0);
    assert(stage_follows(tr[k - 1], tr[k - 1 + 1]));
    if tr[k - 1] is WriteList {
        assert(k - 1 > 0);
        assert(stage_follows(tr[k - 2], tr[k - 2 + 1]));
        assert(tr[k - 2] is ReadList);
        lemma_read_only_after_existence_check(tr, k - 2);
    } else {
        assert(tr[k - 1] is ReadList);
        lemma_read_only_after_existence_check(tr, k - 1);
    }
}

/// The persisted list is only read after the opening directory check found
/// the install directory to exist.
pub proof fn lemma_read_only_after_existence_check(tr: Seq<UninstallStage>, k: int)
    requires
        is_run(tr),
        0 <= k < tr.len(),
        tr[k] is ReadList,
    ensures
        k >= 1,
        tr[0] is CheckDir && tr[1] is ReadList,
{
    assert(k > 0);
    assert(stage_follows(tr[k - 1], tr[k - 1 + 1]));
    assert(tr[k - 1] is CheckDir);
    if k - 1 > 0 {
        assert(stage_follows(tr[k - 2], tr[k - 2 + 1]));
        assert(false);
    }
    assert(k == 1);
}

} // verus!
