use aoscbootstrap::pipeline::{
    advance, guard_target, is_end, next_phase, phase_tag, plan, Flags, PackageSet, Phase, Step,
};

fn flags(download_only: bool, stage1_only: bool) -> Flags {
    Flags { download_only, stage1_only, clean_up: false }
}

fn full_run() -> Vec<Phase> {
    vec![
        Phase::Init,
        Phase::PrepareDirs,
        Phase::FetchManifests,
        Phase::ResolveFull,
        Phase::GuardDownload,
        Phase::Download,
        Phase::SyncDownload,
        Phase::ResolveStub,
        Phase::GuardStage1,
        Phase::Stage1Prep,
        Phase::Stage1Extract,
        Phase::SyncStage1,
        Phase::GuardStage2,
        Phase::WriteScript,
        Phase::IncludeExtraScripts,
        Phase::GuestExec,
        Phase::SyncStage2,
        Phase::End,
    ]
}

#[test]
fn full_run_walks_through_every_phase() {
    assert_eq!(plan(flags(false, false)), full_run());
}

#[test]
fn download_only_run_stops_after_the_download() {
    let phases = plan(flags(true, false));
    let mut expected = full_run()[..7].to_vec();
    expected.push(Phase::End);
    assert_eq!(phases, expected);
    assert!(!phases.contains(&Phase::Stage1Prep));
    assert!(!phases.contains(&Phase::WriteScript));
    assert!(!phases.contains(&Phase::GuestExec));
    assert_eq!(plan(flags(true, true)), expected);
}

#[test]
fn stage_one_run_stops_after_the_extraction() {
    let phases = plan(flags(false, true));
    let mut expected = full_run()[..12].to_vec();
    expected.push(Phase::End);
    assert_eq!(phases, expected);
    assert!(phases.contains(&Phase::Stage1Extract));
    assert!(!phases.contains(&Phase::GuardStage2));
    assert!(!phases.contains(&Phase::GuestExec));
}

#[test]
fn clean_up_does_not_change_the_phases() {
    for download_only in [false, true] {
        for stage1_only in [false, true] {
            let without = Flags { download_only, stage1_only, clean_up: false };
            let with = Flags { download_only, stage1_only, clean_up: true };
            assert_eq!(plan(without), plan(with));
        }
    }
}

#[test]
fn stepping_agrees_with_the_plan() {
    for download_only in [false, true] {
        for stage1_only in [false, true] {
            let f = flags(download_only, stage1_only);
            let mut walked = vec![Phase::Init];
            let mut phase = Phase::Init;
            while !is_end(phase) {
                phase = next_phase(phase, f);
                walked.push(phase);
                assert!(walked.len() <= 18);
            }
            assert_eq!(walked, plan(f));
        }
    }
}

#[test]
fn end_leads_nowhere() {
    assert_eq!(next_phase(Phase::End, flags(false, false)), Phase::End);
    assert_eq!(advance(Phase::End, true, flags(false, false)), Step::Finished);
    assert_eq!(advance(Phase::End, false, flags(false, false)), Step::Finished);
}

#[test]
fn failure_aborts_at_the_failing_phase() {
    for phase in full_run() {
        if phase != Phase::End {
            assert_eq!(advance(phase, false, flags(false, false)), Step::Aborted(phase));
            assert_eq!(advance(phase, false, flags(true, true)), Step::Aborted(phase));
        }
    }
}

#[test]
fn success_leads_to_the_next_phase_or_the_end() {
    let f = flags(false, false);
    assert_eq!(advance(Phase::Init, true, f), Step::Run(Phase::PrepareDirs));
    assert_eq!(advance(Phase::SyncDownload, true, f), Step::Run(Phase::ResolveStub));
    assert_eq!(advance(Phase::SyncDownload, true, flags(true, false)), Step::Finished);
    assert_eq!(advance(Phase::SyncStage1, true, f), Step::Run(Phase::GuardStage2));
    assert_eq!(advance(Phase::SyncStage1, true, flags(false, true)), Step::Finished);
    assert_eq!(advance(Phase::SyncStage2, true, f), Step::Finished);
}

#[test]
fn guards_check_the_right_set() {
    assert_eq!(guard_target(Phase::GuardDownload), Some(PackageSet::Full));
    assert_eq!(guard_target(Phase::GuardStage1), Some(PackageSet::Stub));
    assert_eq!(guard_target(Phase::GuardStage2), Some(PackageSet::Full));
    assert_eq!(guard_target(Phase::Download), None);
    assert_eq!(guard_target(Phase::End), None);
    let guards: Vec<Phase> = plan(flags(false, false))
        .into_iter()
        .filter(|p| guard_target(*p) == Some(PackageSet::Full))
        .collect();
    assert_eq!(guards, vec![Phase::GuardDownload, Phase::GuardStage2]);
}

#[test]
fn each_filling_phase_is_followed_by_a_sync() {
    let phases = plan(flags(false, false));
    for (i, phase) in phases.iter().enumerate() {
        if matches!(phase, Phase::Download | Phase::Stage1Extract | Phase::GuestExec) {
            assert_eq!(phase_tag(phases[i + 1]), "SYNC");
        }
    }
}

#[test]
fn phases_have_their_tags() {
    let tags: Vec<&str> = full_run().into_iter().map(phase_tag).collect();
    assert_eq!(
        tags,
        vec![
            "INIT",
            "PREPARE_DIRS",
            "FETCH_MANIFESTS",
            "RESOLVE_FULL",
            "GUARD(full)",
            "DOWNLOAD",
            "SYNC",
            "RESOLVE_STUB",
            "GUARD(stub)",
            "STAGE1_PREP",
            "STAGE1_EXTRACT",
            "SYNC",
            "GUARD(full)",
            "WRITE_SCRIPT",
            "INCLUDE_EXTRA_SCRIPTS",
            "GUEST_EXEC",
            "SYNC",
            "END",
        ]
    );
}
