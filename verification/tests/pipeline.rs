use maestro_install::pipeline::{PipelineState, Stage};
use maestro_install::progress::InstallProgress;
use maestro_install::prompt::{non_empty_validator, InstallStep, TermPrompt};

#[test]
fn pipeline_runs_stages_in_order() {
    let mut state = PipelineState::start();
    let expected = [
        Stage::CreateMountRoot,
        Stage::PartitionDisks,
        Stage::CreateFilesystems,
        Stage::MountFilesystems,
        Stage::CreateDirs,
        Stage::InstallPackages,
        Stage::InstallBootloader,
        Stage::SetLocales,
        Stage::SetHostname,
        Stage::CreateUsers,
        Stage::UnmountFilesystems,
    ];
    for stage in expected {
        assert_eq!(state, PipelineState::Running(stage));
        state = state.advance(true);
    }
    assert_eq!(state, PipelineState::Done);
}

#[test]
fn pipeline_failure_stops_everything() {
    let mut state = PipelineState::start();
    state = state.advance(true);
    state = state.advance(true);
    // The third stage reports a non-zero tool exit: the run fails.
    state = state.advance(false);
    assert_eq!(state, PipelineState::Failed);
    // No later outcome revives the run: no further stage is executed.
    state = state.advance(true);
    assert_eq!(state, PipelineState::Failed);
}

#[test]
fn stage_headers() {
    assert_eq!(Stage::CreateMountRoot.header_text(), "Create directory `/mnt`\n");
    assert_eq!(Stage::PartitionDisks.header_text(), "\nPartition disk\n");
    assert_eq!(Stage::CreateUsers.header_text(), "\nCreate users and groups\n");
    assert_eq!(Stage::UnmountFilesystems.header_text(), "\nUnmount filesystems\n");
    assert_eq!(Stage::UnmountFilesystems.next(), None);
}

#[test]
fn progress_log_splits_lines() {
    let mut p = InstallProgress::new();
    assert!(p.get_logs().is_empty());
    assert_eq!(p.get_progress(), 0);
    p.log("\nPartition disk\n");
    assert_eq!(
        p.get_logs(),
        &["".to_string(), "Partition disk".to_string(), "".to_string()]
    );
    p.log("one line");
    assert_eq!(p.get_logs().len(), 4);
    assert_eq!(p.get_logs()[3], "one line");
    p.set_progress(500);
    assert_eq!(p.get_progress(), 500);
}

#[test]
fn wizard_steps_are_linear() {
    assert_eq!(InstallStep::Welcome.get_number(), 0);
    assert_eq!(InstallStep::Finished.get_number(), 6);
    assert_eq!(InstallStep::Welcome.get_name(), None);
    assert_eq!(InstallStep::Localization.get_name(), Some("Localization"));
    assert_eq!(InstallStep::SystemInfo.get_name(), Some("System informations"));

    let mut step = InstallStep::Welcome;
    let mut count = 0;
    while let Some(next) = step.get_next() {
        assert_eq!(next.get_number(), step.get_number() + 1);
        step = next;
        count += 1;
    }
    assert_eq!(count, 6);
}

#[test]
fn term_prompt_starts_at_welcome() {
    let mut prompt = TermPrompt::new();
    assert!(matches!(prompt.get_current_step(), Some(InstallStep::Welcome)));
    assert!(prompt.get_infos().lang.is_none());
    assert!(prompt.get_infos().hostname.is_empty());
    prompt.advance_step();
    assert!(matches!(prompt.get_current_step(), Some(InstallStep::Localization)));
}

#[test]
fn validator_rejects_empty_input() {
    assert!(non_empty_validator("x").is_ok());
    let r = non_empty_validator("");
    assert_eq!(r.unwrap_err(), None);
}
