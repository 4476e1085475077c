//! The provisioning pipeline's stage sequence and its state machine.
//!
//! The pipeline runs its eleven stages strictly in order. The surrounding
//! binary carries each stage's plan out and reports whether the stage
//! succeeded; the state machine here decides what follows: the next stage
//! in order after a success, the failed state after a failure — with no
//! retry, no rollback, and no further stage. A planning error inside a
//! stage counts as that stage failing.

use vstd::prelude::*;

verus! {

/// One stage of the provisioning pipeline, in its fixed order.
#[derive(Clone, Copy, Debug, PartialEq, Eq, Structural)]
pub enum Stage {
    CreateMountRoot,
    PartitionDisks,
    CreateFilesystems,
    MountFilesystems,
    CreateDirs,
    InstallPackages,
    InstallBootloader,
    SetLocales,
    SetHostname,
    CreateUsers,
    UnmountFilesystems,
}

/// The number of pipeline stages.
pub open spec fn spec_stage_count() -> nat {
    11
}

impl Stage {
    /// The position of the stage in the pipeline's order, starting at zero.
    pub open spec fn spec_index(self) -> nat {
        match self {
            Self::CreateMountRoot => 0,
            Self::PartitionDisks => 1,
            Self::CreateFilesystems => 2,
            Self::MountFilesystems => 3,
            Self::CreateDirs => 4,
            Self::InstallPackages => 5,
            Self::InstallBootloader => 6,
            Self::SetLocales => 7,
            Self::SetHostname => 8,
            Self::CreateUsers => 9,
            Self::UnmountFilesystems => 10,
        }
    }

    /// The stage at a position of the pipeline's order.
    pub open spec fn spec_at(i: nat) -> Stage {
        if i == 0 {
            Self::CreateMountRoot
        } else if i == 1 {
            Self::PartitionDisks
        } else if i == 2 {
            Self::CreateFilesystems
        } else if i == 3 {
            Self::MountFilesystems
        } else if i == 4 {
            Self::CreateDirs
        } else if i == 5 {
            Self::InstallPackages
        } else if i == 6 {
            Self::InstallBootloader
        } else if i == 7 {
            Self::SetLocales
        } else if i == 8 {
            Self::SetHostname
        } else if i == 9 {
            Self::CreateUsers
        } else {
            Self::UnmountFilesystems
        }
    }

    /// The stage after this one, or `None` after the last.
    pub open spec fn spec_next(self) -> Option<Stage> {
        match self {
            Self::CreateMountRoot => Some(Self::PartitionDisks),
            Self::PartitionDisks => Some(Self::CreateFilesystems),
            Self::CreateFilesystems => Some(Self::MountFilesystems),
            Self::MountFilesystems => Some(Self::CreateDirs),
            Self::CreateDirs => Some(Self::InstallPackages),
            Self::InstallPackages => Some(Self::InstallBootloader),
            Self::InstallBootloader => Some(Self::SetLocales),
            Self::SetLocales => Some(Self::SetHostname),
            Self::SetHostname => Some(Self::CreateUsers),
            Self::CreateUsers => Some(Self::UnmountFilesystems),
            Self::UnmountFilesystems => None,
        }
    }

    /// Returns the stage after this one; `None` after the last.
    pub fn next(self) -> (r: Option<Stage>)
        ensures
            r == self.spec_next(),
    {
        match self {
            Self::CreateMountRoot => Some(Self::PartitionDisks),
            Self::PartitionDisks => Some(Self::CreateFilesystems),
            Self::CreateFilesystems => Some(Self::MountFilesystems),
            Self::MountFilesystems => Some(Self::CreateDirs),
            Self::CreateDirs => Some(Self::InstallPackages),
            Self::InstallPackages => Some(Self::InstallBootloader),
            Self::InstallBootloader => Some(Self::SetLocales),
            Self::SetLocales => Some(Self::SetHostname),
            Self::SetHostname => Some(Self::CreateUsers),
            Self::CreateUsers => Some(Self::UnmountFilesystems),
            Self::UnmountFilesystems => None,
        }
    }

    /// The line pushed to the progress tracker before the stage runs.
    pub fn header_text(self) -> (r: &'static str)
        ensures
            self is CreateMountRoot ==> r@ == "Create directory `/mnt`\n"@,
            self is PartitionDisks ==> r@ == "\nPartition disk\n"@,
            self is CreateFilesystems ==> r@ == "\nCreate filesystems\n"@,
            self is MountFilesystems ==> r@ == "\nMount filesystems\n"@,
            self is CreateDirs ==> r@ == "\nCreate directory structure\n"@,
            self is InstallPackages ==> r@ == "\nInstall packages\n"@,
            self is InstallBootloader ==> r@ == "\nInstall bootloader\n"@,
            self is SetLocales ==> r@ == "\nSet locales\n"@,
            self is SetHostname ==> r@ == "\nSet hostname\n"@,
            self is CreateUsers ==> r@ == "\nCreate users and groups\n"@,
            self is UnmountFilesystems ==> r@ == "\nUnmount filesystems\n"@,
    {
        match self {
            Self::CreateMountRoot => "Create directory `/mnt`\n",
            Self::PartitionDisks => "\nPartition disk\n",
            Self::CreateFilesystems => "\nCreate filesystems\n",
            Self::MountFilesystems => "\nMount filesystems\n",
            Self::CreateDirs => "\nCreate directory structure\n",
            Self::InstallPackages => "\nInstall packages\n",
            Self::InstallBootloader => "\nInstall bootloader\n",
            Self::SetLocales => "\nSet locales\n",
            Self::SetHostname => "\nSet hostname\n",
            Self::CreateUsers => "\nCreate users and groups\n",
            Self::UnmountFilesystems => "\nUnmount filesystems\n",
        }
    }
}

/// The state of one pipeline run.
#[derive(Clone, Copy, Debug, PartialEq, Eq, Structural)]
pub enum PipelineState {
    /// The given stage is the next to run.
    Running(Stage),
    /// Every stage completed.
    Done,
    /// A stage failed; nothing further runs.
    Failed,
}

/// The state after one stage outcome is reported: a failure moves the run
/// to `Failed` for good; a success moves it to the next stage in order, or
/// to `Done` after the last. `Done` and `Failed` never change again.
pub open spec fn spec_advance(s: PipelineState, ok: bool) -> PipelineState {
    match s {
        PipelineState::Running(st) => {
            if !ok {
                PipelineState::Failed
            } else {
                match st.spec_next() {
                    Some(n) => PipelineState::Running(n),
                    None => PipelineState::Done,
                }
            }
        },
        PipelineState::Done => PipelineState::Done,
        PipelineState::Failed => PipelineState::Failed,
    }
}

impl PipelineState {
    /// The state a pipeline run starts in: the first stage pending.
    pub fn start() -> (r: Self)
        ensures
            r == PipelineState::Running(Stage::CreateMountRoot),
    {
        PipelineState::Running(Stage::CreateMountRoot)
    }

    /// Reports the outcome of the stage to run and returns the new state:
    /// the next stage in order on success, `Done` after the last stage,
    /// `Failed` — final — on failure.
    pub fn advance(self, ok: bool) -> (r: Self)
        ensures
            r == spec_advance(self, ok),
    {
        match self {
            PipelineState::Running(st) => {
                if !ok {
                    PipelineState::Failed
                } else {
                    match st.next() {
                        Some(n) => PipelineState::Running(n),
                        None => PipelineState::Done,
                    }
                }
            },
            PipelineState::Done => PipelineState::Done,
            PipelineState::Failed => PipelineState::Failed,
        }
    }
}

/// The state after a sequence of stage outcomes, starting from the first
/// stage.
pub open spec fn spec_run(outcomes: Seq<bool>) -> PipelineState
    decreases outcomes.len(),
{
    if outcomes.len() == 0 {
        PipelineState::Running(Stage::CreateMountRoot)
    } else {
        spec_advance(spec_run(outcomes.drop_last()), outcomes.last())
    }
}

/// The stages run strictly in order: after `n` successful outcomes the
/// pipeline is at the stage with index `n`, and done after all eleven.
pub proof fn lemma_pipeline_in_order(outcomes: Seq<bool>)
    requires
        forall|i: int| 0 <= i < outcomes.len() ==> #[trigger] outcomes[i],
        outcomes.len() <= spec_stage_count(),
    ensures
        outcomes.len() < spec_stage_count() ==> spec_run(outcomes) == PipelineState::Running(
            Stage::spec_at(outcomes.len() as nat),
        ),
        outcomes.len() == spec_stage_count() ==> spec_run(outcomes) == PipelineState::Done,
    decreases outcomes.len(),
{
    if outcomes.len() != 0 {
        lemma_pipeline_in_order(outcomes.drop_last());
    }
}

/// A failed stage fails the whole run, whatever comes after: when the
/// pipeline is still running at the first failed outcome, the run ends
/// `Failed`, and no later outcome can change that — no further stage is
/// executed.
pub proof fn lemma_pipeline_stops_on_failure(outcomes: Seq<bool>, k: int)
    requires
        0 <= k < outcomes.len(),
        !outcomes[k],
        spec_run(outcomes.take(k)) is Running,
    ensures
        spec_run(outcomes) == PipelineState::Failed,
        forall|j: int| k < j <= outcomes.len() ==> spec_run(#[trigger] outcomes.take(j)) == PipelineState::Failed,
    decreases outcomes.len(),
{
    assert forall|j: int| k < j <= outcomes.len() implies spec_run(#[trigger] outcomes.take(j))
        == PipelineState::Failed by {
        lemma_run_failed_from(outcomes, k, j);
    }
    assert(outcomes.take(outcomes.len() as int) =~= outcomes);
}

/// After the failure at position `k`, every longer prefix of the run is
/// failed.
proof fn lemma_run_failed_from(outcomes: Seq<bool>, k: int, j: int)
    requires
        0 <= k < outcomes.len(),
        !outcomes[k],
        spec_run(outcomes.take(k)) is Running,
        k < j <= outcomes.len(),
    ensures
        spec_run(outcomes.take(j)) == PipelineState::Failed,
    decreases j,
{
    if j == k + 1 {
        assert(outcomes.take(j).drop_last() =~= outcomes.take(k));
        assert(outcomes.take(j).last() == outcomes[k]);
    } else {
        lemma_run_failed_from(outcomes, k, j - 1);
        assert(outcomes.take(j).drop_last() =~= outcomes.take(j - 1));
    }
}

} // verus!
