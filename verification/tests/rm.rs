use shoka::cli::RmArgs;
use shoka::commands::cd::{Choice, SelectError};
use shoka::commands::rm::{
    choose_repo, cleanliness, delete_tree, fate, jj_cleanliness, outcome_text, question,
    remove_entry, run, AtPath, Cleanliness, Deletion, Disposal, JjAnswer, Outcome, Probe, RepoId,
    RmError, RmStep,
};
use shoka::state::{Repo, Shelf};

fn seed(shelf: &mut Shelf, name: &str) -> RepoId {
    let repo = Repo::new("github.com", "yukimemi", name);
    let id = RepoId::of(&repo);
    shelf.add(repo).unwrap();
    id
}

#[test]
fn removed_entry_has_its_tree_deleted() {
    let mut shelf = Shelf::default();
    let id = seed(&mut shelf, "shoka");
    assert_eq!(remove_entry(&mut shelf, &id, false).unwrap(), Disposal::DeleteTree);
    assert!(shelf.is_empty(), "shelf entry should be dropped");
    let (what, outcome) = delete_tree("/w/shoka", AtPath::Directory).unwrap();
    assert_eq!(what, Deletion::Tree);
    assert_eq!(outcome, Outcome::Deleted);
}

#[test]
fn remove_entry_missing_dir_is_already_gone_not_error() {
    let mut shelf = Shelf::default();
    let id = seed(&mut shelf, "ghost");
    remove_entry(&mut shelf, &id, false).unwrap();
    let (what, outcome) = delete_tree("/w/never-existed", AtPath::Nothing).unwrap();
    assert_eq!(what, Deletion::Nothing);
    assert_eq!(outcome, Outcome::AlreadyGone);
    assert!(shelf.is_empty(), "orphaned entry still reaped");
}

#[test]
fn kept_files_are_left_in_place() {
    let mut shelf = Shelf::default();
    let id = seed(&mut shelf, "renri");
    assert_eq!(remove_entry(&mut shelf, &id, true).unwrap(), Disposal::Keep);
    assert!(shelf.is_empty(), "shelf entry still dropped");
}

#[test]
fn only_the_targeted_checkout_is_dropped() {
    let mut shelf = Shelf::default();
    let a = Repo::new("github.com", "yukimemi", "dup").with_path("/w/a".to_string());
    let b = Repo::new("github.com", "yukimemi", "dup").with_path("/w/b".to_string());
    let id_a = RepoId::of(&a);
    shelf.add(a).unwrap();
    shelf.add(b).unwrap();

    remove_entry(&mut shelf, &id_a, false).unwrap();
    assert_eq!(shelf.len(), 1, "only the targeted checkout is removed");
    assert_eq!(shelf.repos[0].path.as_deref(), Some("/w/b"));
    match remove_entry(&mut shelf, &id_a, false) {
        Err(RmError::Vanished(slug)) => assert_eq!(slug, "github.com/yukimemi/dup"),
        other => panic!("expected a refusal, got {other:?}"),
    }
}

#[test]
fn file_at_the_path_is_unlinked() {
    let (what, outcome) = delete_tree("/w/not-a-repo", AtPath::Other).unwrap();
    assert_eq!(what, Deletion::Entry);
    assert_eq!(outcome, Outcome::Deleted);
    assert!(matches!(
        delete_tree("/w/x", AtPath::Unreadable("denied".into())),
        Err(RmError::Inspect { .. })
    ));
}

#[test]
fn what_the_probe_found_is_told() {
    assert!(matches!(cleanliness(Probe::NoVcs), Cleanliness::Unknown(_)));
    assert!(matches!(cleanliness(Probe::Git(Ok(true))), Cleanliness::Dirty));
    assert!(matches!(cleanliness(Probe::Git(Ok(false))), Cleanliness::Clean));
    assert!(matches!(
        cleanliness(Probe::Git(Err("x".into()))),
        Cleanliness::Unknown(why) if why == "git status read failed: x"
    ));
    let jj = |out: &[u8]| cleanliness(Probe::Jj(JjAnswer::Answered(out.to_vec())));
    assert!(matches!(jj(b" \n"), Cleanliness::Clean));
    assert!(matches!(jj(b"M a.rs\n"), Cleanliness::Dirty));
    assert!(matches!(
        jj_cleanliness(JjAnswer::Failed { status: "exit status: 1".into(), stderr: " bad \n".into() }),
        Cleanliness::Unknown(why) if why == "`jj diff` exited exit status: 1: bad"
    ));
    assert!(matches!(
        jj_cleanliness(JjAnswer::NotFound),
        Cleanliness::Unknown(why) if why == "jj not found on PATH"
    ));
    assert!(matches!(
        jj_cleanliness(JjAnswer::NotStarted("e".into())),
        Cleanliness::Unknown(why) if why == "spawning `jj diff` failed: e"
    ));
}

fn args(dry_run: bool, yes: bool, force: bool, keep_files: bool) -> RmArgs {
    RmArgs {
        repo: None,
        tags: vec![],
        dry_run,
        yes,
        force,
        keep_files,
    }
}

#[test]
fn dirty_trees_are_guarded() {
    let dirty = Cleanliness::Dirty;
    let unknown = Cleanliness::Unknown("x".into());
    let asked = args(false, false, false, false);
    let yes = args(false, true, false, false);
    assert_eq!(run(&args(true, true, true, false), None, None), RmStep::DryRun);
    assert_eq!(run(&asked, None, None), RmStep::Probe);
    assert_eq!(run(&yes, Some(&dirty), None), RmStep::Refuse);
    assert_eq!(run(&asked, Some(&dirty), None), RmStep::Confirm { warn: true });
    assert_eq!(run(&asked, Some(&dirty), Some(true)), RmStep::Remove);
    assert_eq!(run(&asked, Some(&dirty), Some(false)), RmStep::Abort);
    assert_eq!(run(&yes, Some(&unknown), None), RmStep::Remove);
    assert_eq!(run(&args(false, true, true, false), None, None), RmStep::Remove);
    assert_eq!(run(&args(false, false, false, true), None, None), RmStep::Confirm { warn: false });
}

#[test]
fn repository_to_remove_is_chosen_by_hint() {
    let mut shelf = Shelf::default();
    let mut hinted = args(false, false, false, false);
    hinted.repo = Some("ren".into());
    assert!(matches!(
        choose_repo(&shelf, &hinted),
        Err(SelectError::EmptyShelf("shelf is empty — nothing to remove"))
    ));
    seed(&mut shelf, "shoka");
    seed(&mut shelf, "renri");
    assert!(matches!(choose_repo(&shelf, &hinted), Ok(Choice::One(r)) if r.name == "renri"));
}

#[test]
fn texts_tell_what_happens_to_the_files() {
    assert_eq!(fate(true), "drop from shelf (keep files)");
    assert_eq!(
        question("s", "/w/s", false),
        "Delete s at /w/s (working tree + shelf entry)?"
    );
    assert_eq!(
        question("s", "/w/s", true),
        "Drop s from the shelf (leaving /w/s on disk)?"
    );
    assert_eq!(outcome_text(Outcome::KeptFiles), "removed from shelf (files kept on disk)");
    assert_eq!(RmError::Dirty("s".into()).message().contains('s'), true);
}
