use shoka::cli::PruneArgs;
use shoka::commands::prune::{
    expected_checkouts, find_stale, headline, question, remove_stale, removed_text, run,
    PruneError, PruneStep,
};
use shoka::config::{GlobalConfig, ResolvedConfig, ShokaConfig};
use shoka::state::{Repo, Shelf};

fn make_resolved(root: &str) -> ResolvedConfig {
    ShokaConfig {
        global: GlobalConfig {
            root: Some(root.into()),
            layout: "{{ root }}/{{ name }}".into(),
            ..Default::default()
        },
        routes: vec![],
        profiles: vec![],
    }
    .resolve(None, None)
    .expect("resolve")
}

#[test]
fn find_stale_flags_only_missing_paths() {
    let resolved = make_resolved("/data");
    let mut shelf = Shelf::default();
    shelf.add(Repo::new("github.com", "u", "alive")).unwrap();
    shelf.add(Repo::new("github.com", "u", "ghost")).unwrap();
    let all = expected_checkouts(&shelf, &resolved).unwrap();
    assert_eq!(all[1].path, "/data/ghost");

    let stale = find_stale(all, &[true, false]);
    assert_eq!(stale.len(), 1);
    assert_eq!(stale[0].id.name, "ghost");
}

#[test]
fn find_stale_is_empty_when_all_paths_are_there() {
    let resolved = make_resolved("/data");
    let mut shelf = Shelf::default();
    shelf.add(Repo::new("github.com", "u", "a")).unwrap();
    shelf.add(Repo::new("github.com", "u", "b")).unwrap();
    let all = expected_checkouts(&shelf, &resolved).unwrap();
    assert!(find_stale(all, &[true, true]).is_empty());
}

#[test]
fn only_the_missing_checkout_is_dropped() {
    let resolved = make_resolved("/data");
    let mut shelf = Shelf::default();
    let at = |path: &str| Repo::new("github.com", "u", "n").with_path(path.to_string());
    shelf.add(at("/w/a")).unwrap();
    shelf.add(at("/w/b")).unwrap();
    let all = expected_checkouts(&shelf, &resolved).unwrap();
    let stale = find_stale(all, &[true, false]);
    assert_eq!(remove_stale(&mut shelf, &stale).unwrap(), 1);
    assert_eq!(shelf.repos, vec![at("/w/a")]);
    assert!(matches!(
        remove_stale(&mut shelf, &stale),
        Err(PruneError::NothingRemoved)
    ));
}

#[test]
fn nothing_is_dropped_unasked() {
    let args = |dry_run: bool, yes: bool| PruneArgs { dry_run, yes };
    assert_eq!(run(&args(false, true), 0, None), PruneStep::Nothing);
    assert_eq!(run(&args(true, true), 2, None), PruneStep::DryRun);
    assert_eq!(run(&args(false, false), 2, None), PruneStep::Confirm);
    assert_eq!(run(&args(false, false), 2, Some(false)), PruneStep::Abort);
    assert_eq!(run(&args(false, false), 2, Some(true)), PruneStep::Remove);
    assert_eq!(run(&args(false, true), 2, None), PruneStep::Remove);
}

#[test]
fn texts_count_entries() {
    assert_eq!(question(1), "Remove 1 stale entry from the shelf?");
    assert_eq!(question(2), "Remove 2 stale entries from the shelf?");
    assert_eq!(headline(1, 3), "1 of 3 repo(s) have missing clone paths");
    assert_eq!(removed_text(2, 1), "removed 2 stale entries (1 on shelf now)");
}
