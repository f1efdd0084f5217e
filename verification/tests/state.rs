use shoka::config::VcsDefault;
use shoka::paths::ShokaPaths;
use shoka::state::{has_all_tags, Repo, Shelf, ShelfError, SHELF_VERSION};

fn sample_repo(name: &str) -> Repo {
    Repo::new("github.com", "yukimemi", name)
}

fn pinned(name: &str, path: &str) -> Repo {
    sample_repo(name).with_path(path.to_string())
}

#[test]
fn missing_file_yields_empty_shelf() {
    let shelf = Shelf::load_from("/s/state.toml", None).expect("missing file -> default");
    assert_eq!(shelf.version, SHELF_VERSION);
    assert!(shelf.repos.is_empty());
}

#[test]
fn state_save_then_load_round_trip() {
    let target = "/s/nested/state.toml";
    let mut shelf = Shelf::default();
    let mut shoka = sample_repo("shoka");
    shoka.tags = vec!["rust".into(), "cli".into()];
    shoka.note = Some("the bookshelf itself".into());
    shelf.add(shoka.clone()).unwrap();
    shelf.add(sample_repo("renri")).unwrap();
    let mut kanade = sample_repo("kanade");
    kanade.vcs = Some(VcsDefault::Jj);
    shelf.add(kanade.clone()).unwrap();

    let plan = shelf.save_to(target);
    assert_eq!(plan.target, target);

    let loaded = Shelf::load_from(target, Some(shelf)).expect("load");
    assert_eq!(loaded.version, SHELF_VERSION);
    assert_eq!(loaded.repos, vec![shoka, sample_repo("renri"), kanade]);
}

#[test]
fn save_goes_by_way_of_a_temporary_sibling() {
    let plan = Shelf::default().save_to("/s/nested/state.toml");
    assert_eq!(plan.dir.as_deref(), Some("/s/nested"));
    assert_eq!(plan.temp, "/s/nested/state.toml.tmp");
    assert_eq!(plan.target, "/s/nested/state.toml");
}

#[test]
fn shelf_is_saved_to_and_loaded_from_the_state_file() {
    let paths = ShokaPaths::rooted_at("/r");
    let plan = Shelf::default().save(&paths);
    assert_eq!(plan.target, paths.state_file());
    let newer = Shelf { version: SHELF_VERSION + 1, repos: Vec::new() };
    match Shelf::load(&paths, Some(newer)) {
        Err(ShelfError::Newer { path, version }) => {
            assert_eq!(path, paths.state_file());
            assert_eq!(version, SHELF_VERSION + 1);
        }
        other => panic!("expected a refusal, got {other:?}"),
    }
    assert!(Shelf::load(&paths, None).unwrap().is_empty());
}

#[test]
fn add_rejects_duplicate_triple() {
    let mut shelf = Shelf::default();
    shelf.add(sample_repo("shoka")).unwrap();
    let err = shelf.add(sample_repo("shoka")).unwrap_err();
    assert!(
        err.message().contains("already on the shelf"),
        "error should mention duplicate: {}",
        err.message()
    );
    assert_eq!(shelf.len(), 1, "duplicate add must not mutate");
}

#[test]
fn find_and_find_mut_locate_by_triple() {
    let mut shelf = Shelf::default();
    shelf.add(sample_repo("shoka")).unwrap();
    shelf.add(sample_repo("renri")).unwrap();

    let r = shelf.find("github.com", "yukimemi", "renri").unwrap();
    assert_eq!(r.name, "renri");

    let mr = shelf.find_mut("github.com", "yukimemi", "shoka").unwrap();
    mr.tags.push("rust".into());
    let r2 = shelf.find("github.com", "yukimemi", "shoka").unwrap();
    assert_eq!(r2.tags, vec!["rust".to_string()]);

    assert!(shelf.find("github.com", "yukimemi", "ghost").is_none());
}

#[test]
fn remove_returns_the_repo_and_shrinks_shelf() {
    let mut shelf = Shelf::default();
    shelf.add(sample_repo("shoka")).unwrap();
    shelf.add(sample_repo("renri")).unwrap();

    let removed = shelf.remove("github.com", "yukimemi", "shoka").unwrap();
    assert_eq!(removed.name, "shoka");
    assert_eq!(shelf.len(), 1);
    assert!(shelf.find("github.com", "yukimemi", "shoka").is_none());

    assert!(
        shelf.remove("github.com", "yukimemi", "ghost").is_none(),
        "removing a non-existent repo returns None, not an error"
    );
}

#[test]
fn state_future_version_fails_load() {
    let newer = Shelf {
        version: SHELF_VERSION + 1,
        repos: vec![Repo::new("github.com", "o", "n")],
    };
    let err = Shelf::load_from("/s/state.toml", Some(newer)).unwrap_err();
    let msg = err.message();
    assert!(msg.contains("newer"), "error should mention newer schema: {msg}");
}

#[test]
fn checkouts_of_one_remote_have_rows_of_their_own() {
    let mut shelf = Shelf::default();
    shelf.add(pinned("shoka", "/w/a")).unwrap();
    shelf.add(pinned("shoka", "/w/b")).unwrap();
    assert!(matches!(
        shelf.add(pinned("shoka", "/w/a/")),
        Err(ShelfError::Duplicate(_))
    ));
    assert_eq!(shelf.len(), 2);
    let b = shelf
        .find_by_path("github.com", "yukimemi", "shoka", Some("/w/b"))
        .unwrap();
    assert_eq!(b.path.as_deref(), Some("/w/b"));
    assert!(shelf
        .find_by_path("github.com", "yukimemi", "shoka", None)
        .is_none());
    let gone = shelf
        .remove_by_path("github.com", "yukimemi", "shoka", Some("/w/a"))
        .unwrap();
    assert_eq!(gone.path.as_deref(), Some("/w/a"));
    assert!(shelf
        .find_by_path("github.com", "yukimemi", "shoka", Some("/w/b"))
        .is_some());
    assert!(shelf
        .remove_by_path("github.com", "yukimemi", "shoka", Some("/w/a"))
        .is_none());
}

#[test]
fn added_row_is_undone_by_removing_it() {
    let mut shelf = Shelf::default();
    shelf.add(sample_repo("renri")).unwrap();
    shelf.add(pinned("shoka", "/w/a")).unwrap();
    shelf.remove_by_path("github.com", "yukimemi", "shoka", Some("/w/a"));
    assert_eq!(shelf.repos, vec![sample_repo("renri")]);
}

#[test]
fn find_mut_by_path_reaches_the_pinned_row() {
    let mut shelf = Shelf::default();
    shelf.add(pinned("shoka", "/w/a")).unwrap();
    shelf.add(pinned("shoka", "/w/b")).unwrap();
    let row = shelf
        .find_mut_by_path("github.com", "yukimemi", "shoka", Some("/w/b"))
        .unwrap();
    row.note = Some("second".into());
    assert_eq!(shelf.repos[0].note, None);
    assert_eq!(shelf.repos[1].note.as_deref(), Some("second"));
}

#[test]
fn more_tags_narrow_the_shelf() {
    let mut shelf = Shelf::default();
    let mut a = sample_repo("a");
    a.tags = vec!["rust".into(), "cli".into()];
    let mut b = sample_repo("b");
    b.tags = vec!["rust".into()];
    shelf.add(a).unwrap();
    shelf.add(b).unwrap();
    shelf.add(sample_repo("c")).unwrap();
    let names = |tags: &[&str]| -> Vec<String> {
        let wanted: Vec<String> = tags.iter().map(|t| t.to_string()).collect();
        shelf
            .filter_by_tags(&wanted)
            .into_iter()
            .map(|r| r.name.clone())
            .collect()
    };
    assert_eq!(names(&[]), vec!["a", "b", "c"]);
    assert_eq!(names(&["rust"]), vec!["a", "b"]);
    assert_eq!(names(&["rust", "cli"]), vec!["a"]);
    assert_eq!(names(&["go"]), Vec::<String>::new());
    assert!(has_all_tags(&shelf.repos[0], &["cli".to_string()]));
}

#[test]
fn slug_joins_the_triple() {
    assert_eq!(sample_repo("shoka").slug(), "github.com/yukimemi/shoka");
}

#[test]
fn rows_of_windows_go_by_either_separator() {
    let mut shelf = Shelf::default();
    shelf.add(sample_repo("shoka").with_path("C:\\src\\x".to_string())).unwrap();
    let row = shelf.find_by_path("github.com", "yukimemi", "shoka", Some("C:/src/x"));
    assert_eq!(row.unwrap().path.as_deref(), Some("C:\\src\\x"));
    assert!(shelf.add(sample_repo("shoka").with_path("C:/src/x".to_string())).is_err());
}
