//! The installation flow, as a state machine.
//!
//! The machine holds the resolved paths and decides each next step; a driver
//! performs the outside effects (file checks, directory creation, the copy,
//! and the persisted-list store) and feeds the outcome back. The machine
//! guarantees the ordering: the persisted list is touched only after the
//! executable has been fully copied, and a failed step aborts the run.
use vstd::prelude::*;
use vstd::pervasive::unreached;
use vstd::string::StringSliceAdditionalSpecFns;
use crate::errors::Error;
use crate::location::path_join;
use crate::location::SEPARATOR;
use crate::path_list::list_contains;
use crate::path_list::spec_add;

verus! {

/// The name of the executable artifact.
pub open spec fn exe_name() -> Seq<u8> {
    "lcli.exe".spec_bytes()
}

/// Where an installation stands: the outside effect it waits for, or how it
/// ended.
pub enum InstallStage {
    /// Waiting to learn whether the source executable exists.
    CheckSource,
    /// Waiting for the install directory to be created (recursively).
    CreateDir,
    /// Waiting for the executable to be copied over the destination.
    CopyExecutable,
    /// Waiting for the persisted path list to be read.
    ReadList,
    /// Waiting for the pending new list to be written back.
    WriteList(Vec<u8>),
    /// Finished; the flag says whether the persisted list was changed.
    Done(bool),
    /// Aborted with the given error.
    Failed(Error),
}

/// The outside effect a driver must perform for a stage.
#[derive(Clone, Copy, Debug, PartialEq, Eq, Structural)]
pub enum InstallAction {
    /// Does the source executable exist?
    CheckSource,
    /// Create the install directory, recursively; succeed if it exists.
    CreateDir,
    /// Copy the source executable over the destination.
    CopyExecutable,
    /// Read the persisted path list; a missing value reads as empty.
    ReadList,
    /// Write the pending list back to the store.
    WriteList,
}

/// The outcome of the action a driver performed.
pub enum InstallEvent {
    /// Answer to `CheckSource`: the source executable exists, or not.
    Checked(bool),
    /// `CreateDir`, `CopyExecutable` or `WriteList` succeeded.
    Succeeded,
    /// `CreateDir`, `CopyExecutable` or `WriteList` failed.
    Failed,
    /// Answer to `ReadList`: the current persisted list.
    ListRead(Vec<u8>),
    /// Answer to `ReadList`: the store could not be opened.
    ListUnavailable,
}

/// Which events can answer which stage.
pub open spec fn install_event_fits(stage: InstallStage, e: InstallEvent) -> bool {
    match stage {
        InstallStage::CheckSource => e is Checked,
        InstallStage::CreateDir => e is Succeeded || e is Failed,
        InstallStage::CopyExecutable => e is Succeeded || e is Failed,
        InstallStage::ReadList => e is ListRead || e is ListUnavailable,
        InstallStage::WriteList(_) => e is Succeeded || e is Failed,
        InstallStage::Done(_) => false,
        InstallStage::Failed(_) => false,
    }
}

/// One installation in progress: the resolved paths and the stage reached.
pub struct InstallFlow {
    /// The source executable, beside the invoking binary.
    pub source: Vec<u8>,
    /// The resolved install directory, the entry to register.
    pub install_dir: Vec<u8>,
    /// The destination executable, below the install directory.
    pub dest: Vec<u8>,
    /// Where the run stands.
    pub stage: InstallStage,
}

impl InstallFlow {
    /// Begin an installation: the artifact beside the invoking binary goes
    /// below the install directory.
    pub fn new(exe_dir: &[u8], install_dir: &[u8]) -> (r: InstallFlow)
        ensures
            r.source@ == exe_dir@ + seq![SEPARATOR] + exe_name(),
            r.install_dir@ == install_dir@,
            r.dest@ == install_dir@ + seq![SEPARATOR] + exe_name(),
            r.stage is CheckSource,
    {
        let name = "lcli.exe".as_bytes();
        InstallFlow {
            source: path_join(exe_dir, name),
            install_dir: vstd::slice::slice_to_vec(install_dir),
            dest: path_join(install_dir, name),
            stage: InstallStage::CheckSource,
        }
    }

    /// The outside effect the driver must perform next; nothing once the run
    /// is over.
    pub fn action(&self) -> (r: Option<InstallAction>)
        ensures
            self.stage is CheckSource ==> r == Some(InstallAction::CheckSource),
            self.stage is CreateDir ==> r == Some(InstallAction::CreateDir),
            self.stage is CopyExecutable ==> r == Some(InstallAction::CopyExecutable),
            self.stage is ReadList ==> r == Some(InstallAction::ReadList),
            self.stage is WriteList ==> r == Some(InstallAction::WriteList),
            self.stage is Done || self.stage is Failed <==> r is None,
    {
        match &self.stage {
            InstallStage::CheckSource => Some(InstallAction::CheckSource),
            InstallStage::CreateDir => Some(InstallAction::CreateDir),
            InstallStage::CopyExecutable => Some(InstallAction::CopyExecutable),
            InstallStage::ReadList => Some(InstallAction::ReadList),
            InstallStage::WriteList(_) => Some(InstallAction::WriteList),
            InstallStage::Done(_) => None,
            InstallStage::Failed(_) => None,
        }
    }

    /// Advance by the outcome of the last action. The full transition table:
    /// a missing source artifact, a failed directory creation or copy, and a
    /// failed store access each abort the run with the matching error; the
    /// persisted list is changed only when the entry was not yet present, and
    /// the pending write is exactly what `add` returns.
    pub fn step(self, e: InstallEvent) -> (r: InstallFlow)
        requires
            install_event_fits(self.stage, e),
        ensures
            r.source@ == self.source@,
            r.install_dir@ == self.install_dir@,
            r.dest@ == self.dest@,
            self.stage is CheckSource && e == InstallEvent::Checked(true) ==> r.stage
                is CreateDir,
            self.stage is CheckSource && e == InstallEvent::Checked(false) ==> (r.stage
                matches InstallStage::Failed(x) && x == Error::MissingArtifact),
            self.stage is CreateDir && e is Succeeded ==> r.stage is CopyExecutable,
            self.stage is CreateDir && e is Failed ==> (r.stage matches InstallStage::Failed(x)
                && x == Error::Io),
            self.stage is CopyExecutable && e is Succeeded ==> r.stage is ReadList,
            self.stage is CopyExecutable && e is Failed ==> (r.stage
                matches InstallStage::Failed(x) && x == Error::Io),
            self.stage is ReadList ==> (e matches InstallEvent::ListRead(l) ==> (
            if list_contains(l@, self.install_dir@) {
                r.stage == InstallStage::Done(false)
            } else {
                r.stage matches InstallStage::WriteList(p) && p@ == spec_add(
                    l@,
                    self.install_dir@,
                )
            })),
            self.stage is ReadList && e is ListUnavailable ==> (r.stage
                matches InstallStage::Failed(x) && x == Error::PathListAccess),
            self.stage is WriteList && e is Succeeded ==> r.stage == InstallStage::Done(true),
            self.stage is WriteList && e is Failed ==> (r.stage matches InstallStage::Failed(x)
                && x == Error::PathListAccess),
            r.stage is WriteList ==> self.stage is ReadList,
            stage_follows(self.stage, r.stage),
    {
        let InstallFlow { source, install_dir, dest, stage } = self;
        let new_stage = match stage {
            InstallStage::CheckSource => match e {
                InstallEvent::Checked(true) => InstallStage::CreateDir,
                InstallEvent::Checked(false) => InstallStage::Failed(Error::MissingArtifact),
                _ => unreached(),
            },
            InstallStage::CreateDir => match e {
                InstallEvent::Succeeded => InstallStage::CopyExecutable,
                InstallEvent::Failed => InstallStage::Failed(Error::Io),
                _ => unreached(),
            },
            InstallStage::CopyExecutable => match e {
                InstallEvent::Succeeded => InstallStage::ReadList,
                InstallEvent::Failed => InstallStage::Failed(Error::Io),
                _ => unreached(),
            },
            InstallStage::ReadList => match e {
                InstallEvent::ListRead(l) => {
                    let (new_list, changed) = crate::path_list::add(l.as_slice(), install_dir.as_slice());
                    if changed {
                        InstallStage::WriteList(new_list)
                    } else {
                        InstallStage::Done(false)
                    }
                },
                InstallEvent::ListUnavailable => InstallStage::Failed(Error::PathListAccess),
                _ => unreached(),
            },
            InstallStage::WriteList(_) => match e {
                InstallEvent::Succeeded => InstallStage::Done(true),
                InstallEvent::Failed => InstallStage::Failed(Error::PathListAccess),
                _ => unreached(),
            },
            InstallStage::Done(_) => unreached(),
            InstallStage::Failed(_) => unreached(),
        };
        InstallFlow { source, install_dir, dest, stage: new_stage }
    }
}

/// The stage graph of the machine: which stage can follow which, whatever
/// the events were.
pub open spec fn stage_follows(s1: InstallStage, s2: InstallStage) -> bool {
    match s1 {
        InstallStage::CheckSource => s2 is CreateDir || s2 == InstallStage::Failed(
            Error::MissingArtifact,
        ),
        InstallStage::CreateDir => s2 is CopyExecutable || s2 == InstallStage::Failed(Error::Io),
        InstallStage::CopyExecutable => s2 is ReadList || s2 == InstallStage::Failed(Error::Io),
        InstallStage::ReadList => s2 is WriteList || s2 == InstallStage::Done(false) || s2
            == InstallStage::Failed(Error::PathListAccess),
        InstallStage::WriteList(_) => s2 == InstallStage::Done(true) || s2
            == InstallStage::Failed(Error::PathListAccess),
        InstallStage::Done(_) => false,
        InstallStage::Failed(_) => false,
    }
}

/// A run of the machine: it begins at the beginning, and each stage follows
/// from the one before it, as `step` guarantees.
pub open spec fn is_run(tr: Seq<InstallStage>) -> bool {
    &&& tr.len() > 0
    &&& tr[0] is CheckSource
    &&& forall|k: int| 0 <= k < tr.len() - 1 ==> stage_follows(tr[k], #[trigger] tr[k + 1])
}

/// Ordering guarantee: in any run of the machine, the persisted list is
/// touched only after the executable was fully copied. A stage that writes
/// the list is always preceded by a copy stage that was answered with
/// success (its successor is the list read, not a failure).
pub proof fn lemma_write_only_after_copy(tr: Seq<InstallStage>, k: int)
    requires
        is_run(tr),
        0 <= k < tr.len(),
        tr[k] is WriteList,
    ensures
        exists|c: int|
            0 <= c < k - 1 && #[trigger] tr[c] is CopyExecutable && tr[c + 1] is ReadList,
{
    assert(k > 0);
    assert(stage_follows(tr[k - 1], tr[k - 1 + 1]));
    assert(tr[k - 1] is ReadList);
    assert(k - 1 > 0);
    assert(stage_follows(tr[k - 2], tr[k - 2 + 1]));
    assert(tr[k - 2] is CopyExecutable);
    assert(0 <= k - 2 < k - 1 && tr[k - 2] is CopyExecutable && tr[k - 2 + 1] is ReadList);
}

} // verus!
