use shoka::commands::import::{
    check_source, extract_git_repo, local_repo, marker, prompt_for_source, source_candidates,
    synthesise_local, upsert_into_shelf, Import, ImportAction, ImportError, Marker, Outcome,
    LOCAL_HOST,
};
use shoka::remote::RemoteUrl;
use shoka::state::{Repo, Shelf};

#[test]
fn upsert_self_heals_path_less_twin_even_when_path_pinned_row_is_first() {
    let mut shelf = Shelf::default();
    let mut pinned = Repo::new("github.com", "yukimemi", "admintask");
    pinned.path = Some("/elsewhere/admintask".into());
    shelf.add(pinned).unwrap();
    shelf
        .add(Repo::new("github.com", "yukimemi", "admintask"))
        .unwrap();
    assert_eq!(shelf.len(), 2, "fixture must start with both rows");

    let mut incoming = Repo::new("github.com", "yukimemi", "admintask");
    incoming.path = Some("/here/admintask".into());
    let outcome = upsert_into_shelf(&mut shelf, incoming);
    assert!(
        matches!(outcome, Outcome::PathFilled),
        "expected PathFilled, got something else"
    );
    assert_eq!(shelf.len(), 2, "no new row should be added");
    let still_pinned = shelf
        .repos
        .iter()
        .find(|r| r.path.as_deref() == Some("/elsewhere/admintask"))
        .expect("original pinned row preserved");
    assert_eq!(still_pinned.name, "admintask");
    let healed = shelf
        .repos
        .iter()
        .find(|r| r.path.as_deref() == Some("/here/admintask"))
        .expect("path-less row healed to incoming path");
    assert_eq!(healed.name, "admintask");
}

#[test]
fn importing_again_changes_nothing() {
    let mut shelf = Shelf::default();
    let repo = || Repo::new("github.com", "u", "n").with_path("/w/n".to_string());
    assert_eq!(upsert_into_shelf(&mut shelf, repo()), Outcome::Imported);
    assert_eq!(upsert_into_shelf(&mut shelf, repo()), Outcome::AlreadyOnShelf);
    assert_eq!(shelf.len(), 1);
}

#[test]
fn synthesise_local_uses_parent_and_repo_dir_names() {
    let r = synthesise_local("/t/alpha/beta");
    assert_eq!(r.host, LOCAL_HOST);
    assert_eq!(r.owner, "alpha");
    assert_eq!(r.name, "beta");
    assert_eq!(r.path.as_deref(), Some("/t/alpha/beta"));
}

#[test]
fn checkout_at_the_root_gets_placeholders() {
    let r = local_repo("/".to_string());
    assert!(!r.owner.is_empty());
    assert!(!r.name.is_empty());
    assert_eq!(r.path.as_deref(), Some("/"));
}

fn url(host: &str, path: &str) -> Option<RemoteUrl> {
    Some(RemoteUrl {
        host: Some(host.to_string()),
        path: Some(path.to_string()),
    })
}

#[test]
fn extract_git_repo_pins_path_when_dirname_differs_from_remote_slug() {
    let (r, warning) = extract_git_repo(
        "/t/DeviceManagement".to_string(),
        url("github.com", "/yukimemi/admintask.git"),
    );
    assert!(warning.is_none());
    assert_eq!(r.host, "github.com");
    assert_eq!(r.owner, "yukimemi");
    assert_eq!(r.name, "admintask");
    assert_eq!(r.path.as_deref(), Some("/t/DeviceManagement"));
}

#[test]
fn extract_git_repo_pins_path_even_when_dirname_matches_slug() {
    let (r, _) = extract_git_repo(
        "/t/matching-name".to_string(),
        url("github.com", "/yukimemi/matching-name.git"),
    );
    assert_eq!(r.name, "matching-name");
    assert!(
        r.path.is_some(),
        "path should be pinned even in the matching-name case"
    );
}

#[test]
fn checkout_without_a_usable_remote_is_local() {
    let (r, warning) = extract_git_repo("/t/a/b".to_string(), None);
    assert!(warning.is_none());
    assert_eq!((r.host.as_str(), r.owner.as_str(), r.name.as_str()), (LOCAL_HOST, "a", "b"));
    let (r, warning) = extract_git_repo("/t/a/b".to_string(), url("h", "/too/deep/path"));
    assert!(warning.is_some());
    assert_eq!(r.host, LOCAL_HOST);
}

#[test]
fn markers_are_directories() {
    assert_eq!(marker("/t/x/.git", true), Some(Marker::Git));
    assert_eq!(marker("/t/x/.jj", true), Some(Marker::Jj));
    assert_eq!(marker("/t/x/.git", false), None);
    assert_eq!(marker("/t/x/src", true), None);
}

#[test]
fn each_root_is_imported_once() {
    let mut import = Import::new();
    assert!(matches!(import.see("/t/x", true, false), ImportAction::Walk));
    assert!(
        matches!(import.see("/t/x/.git", true, true), ImportAction::Git(root) if root == "/t/x")
    );
    assert!(matches!(import.see("/t/x/.jj", true, true), ImportAction::Prune));
    assert!(
        matches!(import.see("/t/y/.jj", true, false), ImportAction::Jj(root) if root == "/t/y")
    );
    assert_eq!(import.roots, vec!["/t/x", "/t/y"]);
}

#[test]
fn colocated_checkout_is_a_git_checkout_in_either_order() {
    let mut import = Import::new();
    assert!(
        matches!(import.see("/t/x/.jj", true, true), ImportAction::Git(root) if root == "/t/x")
    );
    assert!(matches!(import.see("/t/x/.git", true, true), ImportAction::Prune));
    assert_eq!(import.roots, vec!["/t/x"]);
}

#[test]
fn what_was_imported_is_counted() {
    let mut import = Import::new();
    let mut shelf = Shelf::default();
    let repo = || Repo::new("github.com", "u", "n").with_path("/w/n".to_string());
    import.fold(&mut shelf, repo());
    import.fold(&mut shelf, repo());
    import.failed();
    assert_eq!(
        import.summary(shelf.len()),
        vec![
            "1 imported, 1 on shelf total",
            "1 already on shelf",
            "1 read errors (see SHOKA_LOG=warn for details)",
        ]
    );
    assert_eq!(Import::new().summary(0), vec!["0 imported, 0 on shelf total"]);
}

#[test]
fn source_must_be_a_directory() {
    assert_eq!(check_source("/t".to_string(), true).unwrap(), "/t");
    let err = check_source("/t/nope".to_string(), false).unwrap_err();
    assert!(err.message().contains("/t/nope"), "{}", err.message());
}

#[test]
fn usual_sources_are_offered() {
    let all = source_candidates("/home/u");
    assert_eq!(all[0], "/home/u/ghq");
    assert_eq!(all.len(), 7);
    assert!(matches!(
        prompt_for_source("/home/u", vec![]),
        Err(ImportError::NoSource(_))
    ));
    assert_eq!(
        prompt_for_source("/home/u", vec!["/home/u/src".into()]).unwrap(),
        vec!["/home/u/src"]
    );
}
