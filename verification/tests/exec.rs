use shoka::cli::ExecArgs;
use shoka::commands::exec::{
    check_args, check_target, count_failures, format_cmdline, plan, print_outcome, resolve_targets,
    run_one, start_line, summary, ExecError, Outcome, RunEvent, Target, STALE_ENTRY,
};
use shoka::config::{GlobalConfig, ResolvedConfig, ShokaConfig};
use shoka::state::{Repo, Shelf};

fn make_resolved(root: &str) -> ResolvedConfig {
    ShokaConfig {
        global: GlobalConfig {
            root: Some(root.into()),
            layout: "{{ root }}/{{ name }}".into(),
            exec_concurrency: 4,
            ..Default::default()
        },
        routes: vec![],
        profiles: vec![],
    }
    .resolve(None, None)
    .expect("resolve")
}

fn args(tags: &[&str]) -> ExecArgs {
    ExecArgs {
        tags: tags.iter().map(|t| t.to_string()).collect(),
        filter: None,
        cmd: vec!["true".into()],
    }
}

#[test]
fn resolve_targets_filters_by_tag() {
    let resolved = make_resolved("/data");
    let mut shelf = Shelf::default();
    let mut rust = Repo::new("github.com", "u", "rust-tool");
    rust.tags = vec!["rust".into()];
    let mut go = Repo::new("github.com", "u", "go-tool");
    go.tags = vec!["go".into()];
    shelf.add(rust).unwrap();
    shelf.add(go).unwrap();

    let targets = resolve_targets(&shelf, &resolved, &args(&["rust"])).unwrap();
    assert_eq!(targets.len(), 1);
    assert_eq!(targets[0].slug, "github.com/u/rust-tool");
    assert_eq!(targets[0].path, "/data/rust-tool");
}

#[test]
fn resolve_targets_no_tag_returns_everything() {
    let resolved = make_resolved("/data");
    let mut shelf = Shelf::default();
    shelf.add(Repo::new("github.com", "u", "a")).unwrap();
    shelf.add(Repo::new("github.com", "u", "b")).unwrap();
    let targets = resolve_targets(&shelf, &resolved, &args(&[])).unwrap();
    assert_eq!(targets.len(), 2);
}

fn target() -> Target {
    Target {
        slug: "x".into(),
        path: ".".into(),
    }
}

#[test]
fn outcome_success_only_when_exit_zero_and_no_setup_error() {
    let t = target();
    let mut ok = Outcome {
        target: t.clone(),
        exit_code: Some(0),
        combined: Vec::new(),
        setup_error: None,
    };
    assert!(ok.is_success());
    ok.exit_code = Some(1);
    assert!(!ok.is_success());
    ok.exit_code = Some(0);
    ok.setup_error = Some("nope".into());
    assert!(!ok.is_success());
    ok.setup_error = None;
    ok.exit_code = None;
    assert!(!ok.is_success());
}

#[test]
fn run_is_refused_before_anything_is_started() {
    let resolved = make_resolved("/data");
    let empty = Shelf::default();
    let mut shelf = Shelf::default();
    shelf.add(Repo::new("github.com", "u", "a")).unwrap();

    let mut none = args(&[]);
    none.cmd = vec![];
    assert!(matches!(plan(&shelf, &resolved, &none), Err(ExecError::NoCommand)));
    let mut filtered = args(&[]);
    filtered.filter = Some("dirty".into());
    assert!(matches!(plan(&shelf, &resolved, &filtered), Err(ExecError::Filter)));
    assert!(matches!(check_args(&none), Err(ExecError::NoCommand)));
    assert!(matches!(check_args(&filtered), Err(ExecError::Filter)));
    assert!(check_args(&args(&[])).is_ok());
    assert!(matches!(plan(&empty, &resolved, &args(&[])), Err(ExecError::EmptyShelf)));
    assert!(matches!(
        plan(&shelf, &resolved, &args(&["go"])),
        Err(ExecError::NoTagMatch(1))
    ));
    assert_eq!(plan(&shelf, &resolved, &args(&[])).unwrap().len(), 1);
}

#[test]
fn path_that_does_not_render_stops_the_run() {
    let mut cfg = ShokaConfig::default();
    cfg.global.root = Some("/data".into());
    cfg.global.layout = "{{ oops".into();
    let resolved = cfg.resolve(None, None).unwrap();
    let mut shelf = Shelf::default();
    shelf.add(Repo::new("github.com", "u", "a")).unwrap();
    match plan(&shelf, &resolved, &args(&[])) {
        Err(ExecError::Path { slug, .. }) => assert_eq!(slug, "github.com/u/a"),
        other => panic!("expected a refusal, got {other:?}"),
    }
}

#[test]
fn missing_checkout_is_an_outcome() {
    let outcome = check_target(target(), false).unwrap_err();
    assert_eq!(outcome.setup_error.as_deref(), Some(STALE_ENTRY));
    assert!(!outcome.is_success());
    assert!(check_target(target(), true).is_ok());
}

#[test]
fn outcome_holds_both_streams() {
    let ended = run_one(
        target(),
        RunEvent::Ended {
            code: Some(0),
            stdout: b"out\n".to_vec(),
            stderr: b"err\n\n".to_vec(),
        },
    );
    assert_eq!(ended.combined, b"out\nerr\n\n");
    let report = print_outcome(&ended, "out\nerr\n\n");
    assert!(report.success);
    assert_eq!(report.body.as_deref(), Some("out\nerr"));
    assert_eq!(report.error, None);

    let not_started = run_one(target(), RunEvent::NotStarted("no such file".into()));
    assert_eq!(
        print_outcome(&not_started, "").error.as_deref(),
        Some("spawn failed: no such file")
    );
}

#[test]
fn run_ends_well_only_if_all_do() {
    let good = || {
        Some(run_one(
            target(),
            RunEvent::Ended { code: Some(0), stdout: vec![], stderr: vec![] },
        ))
    };
    let bad = || Some(Outcome::with_setup_error(target(), "x"));
    assert_eq!(count_failures(&[good(), good()]), 0);
    assert_eq!(count_failures(&[good(), bad(), None]), 2);
    assert_eq!(summary(0, 2).unwrap(), "all 2 repo(s) succeeded");
    assert!(matches!(
        summary(1, 2),
        Err(ExecError::Failed { failures: 1, total: 2 })
    ));
}

#[test]
fn command_lines_are_shown_joined() {
    let cmd = vec!["git".to_string(), "status".to_string()];
    assert_eq!(format_cmdline(&cmd), "git status");
    assert_eq!(
        start_line(&cmd, 1, 4),
        "running `git status` across 1 repo (concurrency 4)"
    );
    assert_eq!(
        start_line(&cmd, 2, 4),
        "running `git status` across 2 repos (concurrency 4)"
    );
}
