use shoka::cli::ListArgs;
use shoka::commands::list::{agents_file, filter_repos, footer, print_repo, Footer};
use shoka::config::{GlobalConfig, ResolvedConfig, Route, ShokaConfig, VcsDefault};
use shoka::state::{has_all_tags, Repo, Shelf};
use std::path::Path;

fn resolved_default_layout() -> ResolvedConfig {
    ShokaConfig {
        global: GlobalConfig {
            root: Some("/r".into()),
            ..Default::default()
        },
        routes: vec![],
        profiles: vec![],
    }
    .resolve(None, None)
    .expect("resolve")
}

#[test]
fn clone_path_for_default_layout_is_ghq_shaped() {
    let r = resolved_default_layout();
    let repo = Repo::new("github.com", "yukimemi", "shoka");
    let p = r.clone_path_for(&repo).unwrap();
    assert!(Path::new(&p).is_absolute(), "expected absolute, got {p:?}");
    assert!(
        p.ends_with("/r/github.com/yukimemi/shoka"),
        "rendered path should follow the ghq layout, got {p:?}"
    );
}

#[test]
fn default_layout_takes_the_fields_as_they_are() {
    let r = resolved_default_layout();
    let repo = Repo::new("h&h", "<o>", "n'\"{{ x }}");
    assert_eq!(r.clone_path_for(&repo).unwrap(), "/r/h&h/<o>/n'\"{{ x }}");
}

#[test]
fn plain_text_of_a_layout_is_kept() {
    let mut cfg = ShokaConfig::default();
    cfg.global.root = Some("/r".into());
    cfg.global.layout = "x } %} #}\n{{ vcs }}/{{ protocol }}:{{ profile }}\n".into();
    let r = cfg.resolve(None, None).expect("resolve");
    let repo = Repo::new("github.com", "o", "n");
    assert_eq!(
        r.clone_path_for(&repo).unwrap(),
        "x } %} #}\nauto/https:default\n"
    );
}

#[test]
fn clone_path_for_honors_route_layout() {
    let cfg = ShokaConfig {
        global: GlobalConfig {
            root: Some("/r".into()),
            ..Default::default()
        },
        routes: vec![Route {
            pattern: "host:github.com".into(),
            root: None,
            layout: Some("{{ root }}/{{ owner }}-{{ name }}".into()),
            default_vcs: None,
            default_protocol: None,
        }],
        profiles: vec![],
    };
    let resolved = cfg.resolve(None, None).expect("resolve");
    let s = resolved
        .clone_path_for(&Repo::new("github.com", "foo", "bar"))
        .unwrap();
    assert!(
        s.ends_with("/r/foo-bar"),
        "flat layout from route should win, got {s:?}"
    );
}

#[test]
fn clone_path_for_per_repo_vcs_wins_over_default() {
    let r = resolved_default_layout();
    let mut repo = Repo::new("github.com", "u", "n");
    repo.vcs = Some(VcsDefault::Jj);
    let p = r.clone_path_for(&repo).unwrap();
    assert!(Path::new(&p).is_absolute());
    let mut cfg = ShokaConfig::default();
    cfg.global.root = Some("/r".into());
    cfg.global.layout = "{{ root }}/{{ vcs }}".into();
    let by_vcs = cfg.resolve(None, None).unwrap();
    assert_eq!(by_vcs.clone_path_for(&repo).unwrap(), "/r/jj");
}

fn wanted(tags: &[&str]) -> Vec<String> {
    tags.iter().map(|t| t.to_string()).collect()
}

#[test]
fn has_all_tags_is_and_semantics() {
    let mut repo = Repo::new("github.com", "u", "n");
    repo.tags = vec!["rust".into(), "cli".into()];
    let want_both = wanted(&["rust", "cli"]);
    assert!(has_all_tags(&repo, &want_both));
    let want_extra = wanted(&["rust", "cli", "tui"]);
    assert!(!has_all_tags(&repo, &want_extra));
    let want_one = wanted(&["rust"]);
    assert!(has_all_tags(&repo, &want_one));
    let want_none = wanted(&[]);
    assert!(has_all_tags(&repo, &want_none));
}

#[test]
fn filter_repos_applies_tag_filter() {
    let mut shelf = Shelf::default();
    let mut a = Repo::new("github.com", "u", "rust-repo");
    a.tags = vec!["rust".into()];
    let mut b = Repo::new("github.com", "u", "go-repo");
    b.tags = vec!["go".into()];
    let mut c = Repo::new("github.com", "u", "both-repo");
    c.tags = vec!["rust".into(), "cli".into()];
    shelf.add(a).unwrap();
    shelf.add(b).unwrap();
    shelf.add(c).unwrap();

    let filtered = filter_repos(
        &shelf,
        &ListArgs {
            tags: vec!["rust".into()],
            has_agents: false,
        },
        &[],
    );
    assert_eq!(filtered.len(), 2);
    assert!(filtered.iter().any(|r| r.name == "rust-repo"));
    assert!(filtered.iter().any(|r| r.name == "both-repo"));

    let filtered = filter_repos(
        &shelf,
        &ListArgs {
            tags: vec!["rust".into(), "cli".into()],
            has_agents: false,
        },
        &[],
    );
    assert_eq!(filtered.len(), 1);
    assert_eq!(filtered[0].name, "both-repo");
}

#[test]
fn filter_repos_by_agents_file() {
    let mut shelf = Shelf::default();
    shelf
        .add(Repo::new("github.com", "u", "with-agents"))
        .unwrap();
    shelf.add(Repo::new("github.com", "u", "plain")).unwrap();

    let filtered = filter_repos(
        &shelf,
        &ListArgs {
            tags: vec![],
            has_agents: true,
        },
        &[true, false],
    );
    assert_eq!(filtered.len(), 1);
    assert_eq!(filtered[0].name, "with-agents");
    assert_eq!(
        agents_file(&resolved_default_layout(), &shelf.repos[0]).unwrap(),
        "/r/github.com/u/with-agents/AGENTS.md"
    );
}

#[test]
fn row_is_shown_with_what_it_has() {
    let mut repo = Repo::new("github.com", "u", "n");
    let plain: Vec<&str> = print_repo(&repo, "/w/n").iter().map(|l| l.label).collect();
    assert_eq!(plain, vec!["path :"]);
    repo.tags = wanted(&["rust", "cli"]);
    repo.vcs = Some(VcsDefault::Jj);
    repo.note = Some("mine".into());
    let lines: Vec<(&str, String)> = print_repo(&repo, "/w/n")
        .into_iter()
        .map(|l| (l.label, l.value))
        .collect();
    assert_eq!(
        lines,
        vec![
            ("path :", "/w/n".to_string()),
            ("tags :", "rust cli".to_string()),
            ("vcs  :", "Jj".to_string()),
            ("note :", "mine".to_string()),
        ]
    );
}

#[test]
fn footer_tells_what_matched() {
    assert!(matches!(footer(0, 0), Footer::EmptyShelf));
    assert!(matches!(footer(0, 3), Footer::NoMatch(t) if t == " matched the filters (3 on the shelf total)"));
    assert!(matches!(footer(2, 3), Footer::Partial(t) if t == "2 of 3 repos matched"));
    assert!(matches!(footer(3, 3), Footer::Nothing));
}
