use shoka::actions::{
    action_vcs, command_for, detect_vcs, display_command, run_action, ActionEvent, ActionKind,
    VcsKind,
};

#[test]
fn detect_vcs_prefers_jj_when_colocated() {
    assert_eq!(detect_vcs(true, true), Some(VcsKind::Jj));
}

#[test]
fn detect_vcs_picks_git_when_only_git() {
    assert_eq!(detect_vcs(false, true), Some(VcsKind::Git));
}

#[test]
fn detect_vcs_none_when_neither_marker_present() {
    assert_eq!(detect_vcs(false, false), None);
}

#[test]
fn command_for_jj_uses_git_subcommand() {
    assert_eq!(
        command_for(VcsKind::Jj, ActionKind::Fetch),
        ("jj", &["git", "fetch"][..])
    );
    assert_eq!(
        command_for(VcsKind::Jj, ActionKind::Push),
        ("jj", &["git", "push"][..])
    );
}

#[test]
fn command_for_git_uses_plain_subcommand() {
    assert_eq!(
        command_for(VcsKind::Git, ActionKind::Fetch),
        ("git", &["fetch"][..])
    );
    assert_eq!(
        command_for(VcsKind::Git, ActionKind::Push),
        ("git", &["push"][..])
    );
}

#[test]
fn action_kind_label_is_human_readable() {
    assert_eq!(ActionKind::Fetch.label(), "fetch");
    assert_eq!(ActionKind::Push.label(), "push");
}

#[test]
fn display_command_joins_program_and_arguments() {
    assert_eq!(display_command(VcsKind::Jj, ActionKind::Push), "jj git push");
    assert_eq!(display_command(VcsKind::Git, ActionKind::Fetch), "git fetch");
}

#[test]
fn action_without_vcs_names_the_directory() {
    assert_eq!(action_vcs("/w/x", Some(VcsKind::Git)).unwrap(), VcsKind::Git);
    let err = action_vcs("/w/x", None).unwrap_err();
    assert_eq!(err.message(), "no .jj or .git found in /w/x");
}

#[test]
fn failed_command_is_an_outcome_and_not_an_error() {
    let event = ActionEvent::Ended {
        success: false,
        stdout: "out".to_string(),
        stderr: "rejected".to_string(),
    };
    let outcome = run_action(VcsKind::Git, ActionKind::Push, event).unwrap();
    assert!(!outcome.success);
    assert_eq!(outcome.stdout, "out");
    assert_eq!(outcome.stderr, "rejected");
    assert_eq!(outcome.vcs, VcsKind::Git);
    assert_eq!(outcome.command, "git push");
}

#[test]
fn timed_out_command_says_so() {
    let outcome = run_action(VcsKind::Jj, ActionKind::Fetch, ActionEvent::TimedOut).unwrap();
    assert!(!outcome.success);
    assert_eq!(outcome.stdout, "");
    assert_eq!(outcome.stderr, "timed out after 120s — child killed");
}

#[test]
fn command_that_cannot_be_run_is_an_error() {
    let spawn = run_action(
        VcsKind::Git,
        ActionKind::Fetch,
        ActionEvent::NotStarted("no such file".to_string()),
    );
    assert_eq!(
        spawn.unwrap_err().message(),
        "failed to spawn `git fetch`: no such file"
    );
    let capture = run_action(
        VcsKind::Jj,
        ActionKind::Fetch,
        ActionEvent::NotRead("broken pipe".to_string()),
    );
    assert_eq!(
        capture.unwrap_err().message(),
        "failed to capture output of `jj git fetch`: broken pipe"
    );
}
