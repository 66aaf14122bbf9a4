//! The order of the phases of a run.
//!
//! A run walks through a fixed sequence of phases. Two flags cut it
//! short: a download-only run ends once the archives are on disk, a
//! stage-one run ends once the skeleton is extracted. A phase that fails
//! ends the run where it stands.

use vstd::prelude::*;

verus! {

/// One phase of a run.
#[derive(Clone, Copy, Debug, PartialEq, Eq, Structural)]
pub enum Phase {
    /// Nothing has been done yet.
    Init,
    /// Create the directories for indices and archives.
    PrepareDirs,
    /// Download the package indices.
    FetchManifests,
    /// Resolve the full package set.
    ResolveFull,
    /// Check the free space for the full set, before the download.
    GuardDownload,
    /// Download the archives of the full set.
    Download,
    /// Flush to disk after the download.
    SyncDownload,
    /// Resolve the stub package set.
    ResolveStub,
    /// Check the free space for the stub set.
    GuardStage1,
    /// Write the APT configuration, the bootstrap pack and the device nodes.
    Stage1Prep,
    /// Extract the archives of the stub set.
    Stage1Extract,
    /// Flush to disk after the extraction.
    SyncStage1,
    /// Check the free space for the full set again, before the installation.
    GuardStage2,
    /// Write the install script.
    WriteScript,
    /// Add the caller's scripts to the install script.
    IncludeExtraScripts,
    /// Run the install script in the guest.
    GuestExec,
    /// Flush to disk after the installation.
    SyncStage2,
    /// The run is over.
    End,
}

/// The package set that a phase works on.
#[derive(Clone, Copy, Debug, PartialEq, Eq, Structural)]
pub enum PackageSet {
    /// The packages that host the package manager.
    Stub,
    /// Everything that is to be installed.
    Full,
}

/// The flags that shape a run.
#[derive(Clone, Copy, Debug, PartialEq, Eq, Structural)]
pub struct Flags {
    /// Stop when the archives are downloaded.
    pub download_only: bool,
    /// Stop when the first stage is done.
    pub stage1_only: bool,
    /// Empty the archive cache after the installation.
    pub clean_up: bool,
}

/// What follows once a phase has ended.
#[derive(Clone, Copy, Debug, PartialEq, Eq, Structural)]
pub enum Step {
    /// Go on with this phase.
    Run(Phase),
    /// The run is complete.
    Finished,
    /// The run stops, because this phase failed.
    Aborted(Phase),
}

/// The place of a phase in the longest run.
pub open spec fn rank(phase: Phase) -> nat {
    match phase {
        Phase::Init => 0,
        Phase::PrepareDirs => 1,
        Phase::FetchManifests => 2,
        Phase::ResolveFull => 3,
        Phase::GuardDownload => 4,
        Phase::Download => 5,
        Phase::SyncDownload => 6,
        Phase::ResolveStub => 7,
        Phase::GuardStage1 => 8,
        Phase::Stage1Prep => 9,
        Phase::Stage1Extract => 10,
        Phase::SyncStage1 => 11,
        Phase::GuardStage2 => 12,
        Phase::WriteScript => 13,
        Phase::IncludeExtraScripts => 14,
        Phase::GuestExec => 15,
        Phase::SyncStage2 => 16,
        Phase::End => 17,
    }
}

/// The phase that follows `phase` when it has succeeded.
pub open spec fn successor(phase: Phase, flags: Flags) -> Phase {
    match phase {
        Phase::Init => Phase::PrepareDirs,
        Phase::PrepareDirs => Phase::FetchManifests,
        Phase::FetchManifests => Phase::ResolveFull,
        Phase::ResolveFull => Phase::GuardDownload,
        Phase::GuardDownload => Phase::Download,
        Phase::Download => Phase::SyncDownload,
        Phase::SyncDownload => if flags.download_only {
            Phase::End
        } else {
            Phase::ResolveStub
        },
        Phase::ResolveStub => Phase::GuardStage1,
        Phase::GuardStage1 => Phase::Stage1Prep,
        Phase::Stage1Prep => Phase::Stage1Extract,
        Phase::Stage1Extract => Phase::SyncStage1,
        Phase::SyncStage1 => if flags.stage1_only {
            Phase::End
        } else {
            Phase::GuardStage2
        },
        Phase::GuardStage2 => Phase::WriteScript,
        Phase::WriteScript => Phase::IncludeExtraScripts,
        Phase::IncludeExtraScripts => Phase::GuestExec,
        Phase::GuestExec => Phase::SyncStage2,
        Phase::SyncStage2 => Phase::End,
        Phase::End => Phase::End,
    }
}

/// The phases of a run without failures, from `phase` to the end.
pub open spec fn phases_from(phase: Phase, flags: Flags) -> Seq<Phase>
    decreases 17 - rank(phase),
{
    if phase == Phase::End {
        seq![Phase::End]
    } else {
        seq![phase] + phases_from(successor(phase, flags), flags)
    }
}

/// The phases of a whole run without failures.
pub open spec fn run_phases(flags: Flags) -> Seq<Phase> {
    phases_from(Phase::Init, flags)
}

/// What follows `phase`, given whether it succeeded.
pub open spec fn step_after(phase: Phase, succeeded: bool, flags: Flags) -> Step {
    if phase == Phase::End {
        Step::Finished
    } else if !succeeded {
        Step::Aborted(phase)
    } else if successor(phase, flags) == Phase::End {
        Step::Finished
    } else {
        Step::Run(successor(phase, flags))
    }
}

/// The package set whose size a guard phase checks.
pub open spec fn guarded_set(phase: Phase) -> Option<PackageSet> {
    match phase {
        Phase::GuardDownload => Some(PackageSet::Full),
        Phase::GuardStage1 => Some(PackageSet::Stub),
        Phase::GuardStage2 => Some(PackageSet::Full),
        _ => None,
    }
}

/// Whether a phase writes much to the target.
pub open spec fn fills_target(phase: Phase) -> bool {
    phase == Phase::Download || phase == Phase::Stage1Extract || phase == Phase::GuestExec
}

/// Whether a phase flushes what was written to disk.
pub open spec fn is_sync(phase: Phase) -> bool {
    phase == Phase::SyncDownload || phase == Phase::SyncStage1 || phase == Phase::SyncStage2
}

/// The name of a phase in reports.
pub open spec fn tag_text(phase: Phase) -> Seq<char> {
    match phase {
        Phase::Init => "INIT"@,
        Phase::PrepareDirs => "PREPARE_DIRS"@,
        Phase::FetchManifests => "FETCH_MANIFESTS"@,
        Phase::ResolveFull => "RESOLVE_FULL"@,
        Phase::GuardDownload => "GUARD(full)"@,
        Phase::Download => "DOWNLOAD"@,
        Phase::SyncDownload => "SYNC"@,
        Phase::ResolveStub => "RESOLVE_STUB"@,
        Phase::GuardStage1 => "GUARD(stub)"@,
        Phase::Stage1Prep => "STAGE1_PREP"@,
        Phase::Stage1Extract => "STAGE1_EXTRACT"@,
        Phase::SyncStage1 => "SYNC"@,
        Phase::GuardStage2 => "GUARD(full)"@,
        Phase::WriteScript => "WRITE_SCRIPT"@,
        Phase::IncludeExtraScripts => "INCLUDE_EXTRA_SCRIPTS"@,
        Phase::GuestExec => "GUEST_EXEC"@,
        Phase::SyncStage2 => "SYNC"@,
        Phase::End => "END"@,
    }
}

/// The phase that follows `phase` when it has succeeded.
pub fn next_phase(phase: Phase, flags: Flags) -> (next: Phase)
    ensures
        next == successor(phase, flags),
{
    match phase {
        Phase::Init => Phase::PrepareDirs,
        Phase::PrepareDirs => Phase::FetchManifests,
        Phase::FetchManifests => Phase::ResolveFull,
        Phase::ResolveFull => Phase::GuardDownload,
        Phase::GuardDownload => Phase::Download,
        Phase::Download => Phase::SyncDownload,
        Phase::SyncDownload => {
            if flags.download_only {
                Phase::End
            } else {
                Phase::ResolveStub
            }
        },
        Phase::ResolveStub => Phase::GuardStage1,
        Phase::GuardStage1 => Phase::Stage1Prep,
        Phase::Stage1Prep => Phase::Stage1Extract,
        Phase::Stage1Extract => Phase::SyncStage1,
        Phase::SyncStage1 => {
            if flags.stage1_only {
                Phase::End
            } else {
                Phase::GuardStage2
            }
        },
        Phase::GuardStage2 => Phase::WriteScript,
        Phase::WriteScript => Phase::IncludeExtraScripts,
        Phase::IncludeExtraScripts => Phase::GuestExec,
        Phase::GuestExec => Phase::SyncStage2,
        Phase::SyncStage2 => Phase::End,
        Phase::End => Phase::End,
    }
}

/// Whether `phase` is the end of the run.
pub fn is_end(phase: Phase) -> (end: bool)
    ensures
        end == (phase == Phase::End),
{
    match phase {
        Phase::End => true,
        _ => false,
    }
}

/// What follows `phase`, given whether it succeeded: the next phase, the
/// end of the run, or its abortion at `phase`.
pub fn advance(phase: Phase, succeeded: bool, flags: Flags) -> (step: Step)
    ensures
        step == step_after(phase, succeeded, flags),
{
    if is_end(phase) {
        Step::Finished
    } else if !succeeded {
        Step::Aborted(phase)
    } else {
        let next = next_phase(phase, flags);
        if is_end(next) {
            Step::Finished
        } else {
            Step::Run(next)
        }
    }
}

/// The phases of a whole run without failures, in order.
pub fn plan(flags: Flags) -> (phases: Vec<Phase>)
    ensures
        phases@ == run_phases(flags),
{
    let mut phases: Vec<Phase> = Vec::new();
    let mut phase = Phase::Init;
    while !is_end(phase)
        invariant
            phases@ + phases_from(phase, flags) == run_phases(flags),
        decreases 17 - rank(phase),
    {
        let ghost before = phases@;
        phases.push(phase);
        proof {
            let rest = phases_from(successor(phase, flags), flags);
            assert(before.push(phase) + rest == before + (seq![phase] + rest));
        }
        phase = next_phase(phase, flags);
    }
    phases.push(phase);
    assert(phases_from(Phase::End, flags) == seq![Phase::End]);
    phases
}

/// The package set whose size a guard phase checks; `None` for a phase
/// that is no guard.
pub fn guard_target(phase: Phase) -> (set: Option<PackageSet>)
    ensures
        set == guarded_set(phase),
{
    match phase {
        Phase::GuardDownload => Some(PackageSet::Full),
        Phase::GuardStage1 => Some(PackageSet::Stub),
        Phase::GuardStage2 => Some(PackageSet::Full),
        _ => None,
    }
}

/// The name of a phase in reports.
pub fn phase_tag(phase: Phase) -> (tag: &'static str)
    ensures
        tag@ == tag_text(phase),
{
    match phase {
        Phase::Init => "INIT",
        Phase::PrepareDirs => "PREPARE_DIRS",
        Phase::FetchManifests => "FETCH_MANIFESTS",
        Phase::ResolveFull => "RESOLVE_FULL",
        Phase::GuardDownload => "GUARD(full)",
        Phase::Download => "DOWNLOAD",
        Phase::SyncDownload => "SYNC",
        Phase::ResolveStub => "RESOLVE_STUB",
        Phase::GuardStage1 => "GUARD(stub)",
        Phase::Stage1Prep => "STAGE1_PREP",
        Phase::Stage1Extract => "STAGE1_EXTRACT",
        Phase::SyncStage1 => "SYNC",
        Phase::GuardStage2 => "GUARD(full)",
        Phase::WriteScript => "WRITE_SCRIPT",
        Phase::IncludeExtraScripts => "INCLUDE_EXTRA_SCRIPTS",
        Phase::GuestExec => "GUEST_EXEC",
        Phase::SyncStage2 => "SYNC",
        Phase::End => "END",
    }
}

/// Every phase but the last leads to a later one, and the last leads
/// nowhere; so a run ends after at most 17 steps.
pub proof fn lemma_successor_advances(phase: Phase, flags: Flags)
    ensures
        phase != Phase::End ==> rank(successor(phase, flags)) > rank(phase),
        successor(Phase::End, flags) == Phase::End,
        rank(phase) <= 17,
{
}

/// A download-only run ends after the download is flushed to disk: no
/// phase of the first or second stage is part of it.
pub proof fn lemma_download_only_run(flags: Flags)
    requires
        flags.download_only,
    ensures
        run_phases(flags) == seq![
            Phase::Init,
            Phase::PrepareDirs,
            Phase::FetchManifests,
            Phase::ResolveFull,
            Phase::GuardDownload,
            Phase::Download,
            Phase::SyncDownload,
            Phase::End,
        ],
{
    reveal_with_fuel(phases_from, 9);
}

/// A stage-one run ends after the extraction is flushed to disk: no
/// phase of the second stage is part of it.
pub proof fn lemma_stage1_only_run(flags: Flags)
    requires
        !flags.download_only,
        flags.stage1_only,
    ensures
        run_phases(flags) == seq![
            Phase::Init,
            Phase::PrepareDirs,
            Phase::FetchManifests,
            Phase::ResolveFull,
            Phase::GuardDownload,
            Phase::Download,
            Phase::SyncDownload,
            Phase::ResolveStub,
            Phase::GuardStage1,
            Phase::Stage1Prep,
            Phase::Stage1Extract,
            Phase::SyncStage1,
            Phase::End,
        ],
{
    reveal_with_fuel(phases_from, 14);
}

/// A run with neither flag walks through every phase, in order.
pub proof fn lemma_full_run(flags: Flags)
    requires
        !flags.download_only,
        !flags.stage1_only,
    ensures
        run_phases(flags) == seq![
            Phase::Init,
            Phase::PrepareDirs,
            Phase::FetchManifests,
            Phase::ResolveFull,
            Phase::GuardDownload,
            Phase::Download,
            Phase::SyncDownload,
            Phase::ResolveStub,
            Phase::GuardStage1,
            Phase::Stage1Prep,
            Phase::Stage1Extract,
            Phase::SyncStage1,
            Phase::GuardStage2,
            Phase::WriteScript,
            Phase::IncludeExtraScripts,
            Phase::GuestExec,
            Phase::SyncStage2,
            Phase::End,
        ],
{
    reveal_with_fuel(phases_from, 19);
}

/// Every phase that fills the target is followed at once by a flush to
/// disk, whatever the flags.
pub proof fn lemma_sync_follows_filling(phase: Phase, flags: Flags)
    requires
        fills_target(phase),
    ensures
        is_sync(successor(phase, flags)),
{
}

/// The download and the installation in the guest are each reached only
/// through a guard on the full set, whatever the flags.
pub proof fn lemma_guard_precedes_filling(phase: Phase, flags: Flags)
    requires
        successor(phase, flags) == Phase::Download || successor(phase, flags)
            == Phase::WriteScript,
    ensures
        guarded_set(phase) == Some(PackageSet::Full),
{
}

} // verus!
