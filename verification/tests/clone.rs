use shoka::commands::clone::{
    check_dest, clone_and_record, clone_plan, dest_is_occupied, owner_in, picked_input,
    prompt_for_input, text_fallback_prompt, AfterListing, Backend, CloneError, DestListing,
    Listing, Session,
};
use shoka::config::{ResolvedConfig, ShokaConfig, VcsDefault};
use shoka::gh::RepoListItem;
use shoka::state::{Repo, Shelf};

fn resolved() -> ResolvedConfig {
    let mut cfg = ShokaConfig::default();
    cfg.global.root = Some("/w".into());
    cfg.resolve(None, None).unwrap()
}

#[test]
fn dest_is_occupied_missing_dir_is_free() {
    assert!(!dest_is_occupied("/w/not-there", DestListing::Missing).unwrap());
}

#[test]
fn dest_is_occupied_empty_dir_is_free() {
    assert!(!dest_is_occupied("/w/empty", DestListing::Empty).unwrap());
}

#[test]
fn dest_is_occupied_nonempty_dir_is_blocked() {
    assert!(dest_is_occupied("/w/occupied", DestListing::Occupied).unwrap());
}

#[test]
fn occupied_destination_is_refused() {
    assert!(check_dest("/w/x", DestListing::Missing).is_ok());
    let err = check_dest("/w/x", DestListing::Occupied).unwrap_err();
    assert!(err.message().contains("/w/x"), "{}", err.message());
    assert!(matches!(
        check_dest("/w/x", DestListing::Unreadable("denied".into())),
        Err(CloneError::Inspect { .. })
    ));
}

#[test]
fn clone_goes_where_the_configuration_says() {
    let plan = clone_plan(&resolved(), "foo/bar").unwrap();
    assert_eq!(plan.url, "https://github.com/foo/bar.git");
    assert_eq!(plan.repo, Repo::new("github.com", "foo", "bar"));
    assert_eq!(plan.dest, "/w/github.com/foo/bar");
    assert_eq!(plan.parent.as_deref(), Some("/w/github.com/foo"));
    assert_eq!(plan.backend, Backend::Git);
}

#[test]
fn jj_clones_where_it_is_the_default() {
    let mut cfg = ShokaConfig::default();
    cfg.global.root = Some("/w".into());
    cfg.global.default_vcs = VcsDefault::Jj;
    let plan = clone_plan(&cfg.resolve(None, None).unwrap(), "foo/bar").unwrap();
    assert_eq!(plan.backend, Backend::Jj);
}

#[test]
fn input_that_names_no_repository_is_refused() {
    let err = clone_plan(&resolved(), "justaname").unwrap_err();
    assert!(matches!(err, CloneError::Input(_)));
    assert!(err.message().contains("neither a URL"), "{}", err.message());
}

#[test]
fn layout_that_does_not_render_stops_the_clone() {
    let mut cfg = ShokaConfig::default();
    cfg.global.root = Some("/w".into());
    cfg.global.layout = "{{ nope".into();
    let err = clone_plan(&cfg.resolve(None, None).unwrap(), "foo/bar").unwrap_err();
    assert!(matches!(err, CloneError::Path(_)));
}

#[test]
fn clone_is_recorded_once() {
    let mut shelf = Shelf::default();
    assert!(clone_and_record(&mut shelf, Repo::new("github.com", "foo", "bar")));
    assert!(!clone_and_record(&mut shelf, Repo::new("github.com", "foo", "bar")));
    assert_eq!(shelf.len(), 1);
}

#[test]
fn owner_in_is_case_insensitive() {
    let owners = vec!["yukimemi".into(), "Rust-Lang".into()];
    assert!(owner_in(&owners, "yukimemi"));
    assert!(owner_in(&owners, "YukimemI"));
    assert!(owner_in(&owners, "rust-lang"));
    assert!(owner_in(&owners, "RUST-LANG"));
    assert!(!owner_in(&owners, "someone-else"));
    assert!(!owner_in(&[], "anyone"));
}

fn listed(name: &str) -> RepoListItem {
    RepoListItem {
        owner: "acme".into(),
        name: name.into(),
        description: None,
        archived: false,
    }
}

#[test]
fn owner_is_asked_for_until_there_is_something_to_pick() {
    let owners = vec!["acme".to_string()];
    assert!(prompt_for_input(&owners, Session::NoToken).is_none());
    let mut prompt = prompt_for_input(&owners, Session::Login("me".into())).unwrap();
    assert_eq!(prompt.offered.as_deref(), Some("acme"));

    let query = prompt.answer("acme");
    assert_eq!(query.owner.as_deref(), Some("acme"));
    assert!(query.is_org);
    assert!(matches!(
        prompt.listed(&query, Listing::NotFound),
        AfterListing::AskAgain(_)
    ));
    assert_eq!(prompt.offered, None);
    match prompt.listed(&query, Listing::Repos(vec![listed("x")])) {
        AfterListing::Pick(items) => assert_eq!(picked_input(&items[0]), "acme/x"),
        other => panic!("expected a choice, got {other:?}"),
    }
    assert!(matches!(
        prompt.listed(&query, Listing::Failed("down".into())),
        AfterListing::Fail(_)
    ));
}

#[test]
fn own_repositories_are_listed_without_an_owner() {
    let prompt = prompt_for_input(&[], Session::Login("me".into())).unwrap();
    assert_eq!(prompt.default_owner, "me");
    assert_eq!(prompt.answer("  ").owner, None);
    assert_eq!(prompt.answer("ME").owner, None);
    assert_eq!(prompt.answer("you").owner.as_deref(), Some("you"));
}

#[test]
fn empty_answer_cancels() {
    assert_eq!(text_fallback_prompt("  ".into()), None);
    assert_eq!(text_fallback_prompt("foo/bar".into()).as_deref(), Some("foo/bar"));
}
