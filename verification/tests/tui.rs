use shoka::actions::{action_vcs, ActionKind, ActionOutcome, VcsKind};
use shoka::cache::Cache;
use shoka::commands::tui::app::{App, Mode};
use shoka::commands::tui::keys::{
    fetch_event, handle_key, handle_picker_key, open_picker, open_selected_repo_home,
    record_action, record_open, record_yank, run_action_for_selected, split_slug,
    yank_selected_slug, FetchOutcome, KeyCode, KeyEvent, Step,
};
use shoka::commands::tui::picker::{FetchEvent, Picker, PickerKind, PickerState};
use shoka::commands::tui::rank::score;
use shoka::commands::tui::rows::{build_rows, dashboard, DashRow, TuiError};
use shoka::config::ShokaConfig;
use shoka::gh::{CiStatus, GhSnapshot, PickerItem};
use shoka::git_status::GitStatusSnapshot;
use shoka::state::{Repo, Shelf};

fn owner_from_slug(slug: &str) -> String {
    slug.split('/').nth(1).unwrap_or("").to_string()
}

fn row(slug: &str, path: &str) -> DashRow {
    DashRow {
        slug: slug.into(),
        owner: owner_from_slug(slug),
        path: path.into(),
        search_key: format!("{slug} {path}"),
        tags_display: String::new(),
        status: None,
        gh: None,
    }
}

fn rows(slugs: &[&str]) -> Vec<DashRow> {
    slugs.iter().map(|s| row(s, "/tmp")).collect()
}

fn rows_with_paths(items: &[(&str, &str)]) -> Vec<DashRow> {
    items.iter().map(|(slug, path)| row(slug, path)).collect()
}

fn app(rows: Vec<DashRow>) -> App {
    App::new(rows, Vec::new())
}

fn matched_slugs(app: &App) -> Vec<&str> {
    app.matches
        .iter()
        .map(|&i| app.rows[i].slug.as_str())
        .collect()
}

#[test]
fn build_rows_splits_status_per_path_but_shares_gh_by_triple() {
    let path_a = "/home/u/a/shoka";
    let path_b = "/home/u/b/shoka";
    let mut shelf = Shelf::default();
    shelf
        .add(Repo::new("github.com", "yukimemi", "shoka").with_path(path_a.to_string()))
        .unwrap();
    shelf
        .add(Repo::new("github.com", "yukimemi", "shoka").with_path(path_b.to_string()))
        .unwrap();

    let status_a = GitStatusSnapshot {
        branch: Some("feat/a".into()),
        dirty: false,
        ahead: Some(1),
        behind: Some(0),
    };
    let status_b = GitStatusSnapshot {
        branch: Some("feat/b".into()),
        dirty: true,
        ahead: Some(0),
        behind: Some(2),
    };
    let shared_gh = GhSnapshot {
        open_pr_count: Some(7),
        ci_status: Some(CiStatus::Success),
        weekly_commits: None,
    };

    let mut cache = Cache::default();
    let row_a = cache.upsert(&shelf.repos[0]);
    row_a.git_status = Some(status_a.clone());
    row_a.gh = None;
    let row_b = cache.upsert(&shelf.repos[1]);
    row_b.git_status = Some(status_b.clone());
    row_b.gh = Some(shared_gh.clone());

    let mut cfg = ShokaConfig::default();
    cfg.global.root = Some("/unused-for-pinned-rows".into());
    let resolved = cfg.resolve(None, None).expect("resolve");
    let rows = build_rows(&shelf, &resolved, &cache, &[]).expect("build rows");
    assert_eq!(rows.len(), 2);

    assert_eq!(rows[0].status.as_ref(), Some(&status_a));
    assert_eq!(rows[1].status.as_ref(), Some(&status_b));

    assert_eq!(rows[0].gh.as_ref(), Some(&shared_gh));
    assert_eq!(rows[1].gh.as_ref(), Some(&shared_gh));
    assert_eq!(rows[0].search_key, "github.com/yukimemi/shoka /home/u/a/shoka");
}

#[test]
fn dashboard_needs_something_to_show() {
    let mut cfg = ShokaConfig::default();
    cfg.global.root = Some("/r".into());
    let resolved = cfg.resolve(None, None).unwrap();
    let cache = Cache::default();
    let mut shelf = Shelf::default();
    let err = dashboard(&shelf, &resolved, &cache, &[]).unwrap_err();
    assert!(matches!(err, TuiError::EmptyShelf));
    assert!(err.message().starts_with("shelf is empty"), "{}", err.message());
    let mut repo = Repo::new("github.com", "u", "n");
    repo.tags = vec!["rust".into(), "cli".into()];
    shelf.add(repo).unwrap();
    let err = dashboard(&shelf, &resolved, &cache, &["go".to_string()]).unwrap_err();
    assert_eq!(
        err.message(),
        "no repos matched the tag filter (1 on the shelf total)"
    );
    let shown = dashboard(&shelf, &resolved, &cache, &["rust".to_string()]).unwrap();
    assert_eq!(shown[0].tags_display, "rust, cli");
    assert_eq!(shown[0].path, "/r/github.com/u/n");
}

#[test]
fn path_that_does_not_render_stops_the_dashboard() {
    let mut cfg = ShokaConfig::default();
    cfg.global.root = Some("/r".into());
    cfg.global.layout = "{{ nope".into();
    let resolved = cfg.resolve(None, None).unwrap();
    let mut shelf = Shelf::default();
    shelf.add(Repo::new("github.com", "u", "n")).unwrap();
    match dashboard(&shelf, &resolved, &Cache::default(), &[]) {
        Err(TuiError::Path { slug, .. }) => assert_eq!(slug, "github.com/u/n"),
        other => panic!("expected a refusal, got {other:?}"),
    }
}

#[test]
fn refilter_empty_query_keeps_shelf_order() {
    let mut app = app(rows(&["alpha", "beta", "gamma"]));
    app.refilter();
    assert_eq!(app.matches, vec![0, 1, 2]);
}

#[test]
fn refilter_narrows_to_matches() {
    let mut app = app(rows(&["alpha", "beta", "gamma", "alphabeta"]));
    app.filter = "alpha".into();
    app.refilter();
    let matched_slugs = matched_slugs(&app);
    assert!(
        matched_slugs.contains(&"alpha"),
        "missing alpha: {matched_slugs:?}"
    );
    assert!(
        matched_slugs.contains(&"alphabeta"),
        "missing alphabeta: {matched_slugs:?}"
    );
    assert!(
        !matched_slugs.contains(&"beta"),
        "beta shouldn't match: {matched_slugs:?}"
    );
    assert!(
        !matched_slugs.contains(&"gamma"),
        "gamma shouldn't match: {matched_slugs:?}"
    );
}

#[test]
fn refilter_no_matches_leaves_empty() {
    let mut app = app(rows(&["alpha", "beta"]));
    app.filter = "zzzzz".into();
    app.refilter();
    assert!(app.matches.is_empty());
    assert_eq!(app.cursor, 0);
    assert!(app.table_selection().is_none());
}

#[test]
fn refilter_matches_against_path_for_multi_clone_disambiguation() {
    let mut app = app(rows_with_paths(&[
        (
            "github.com/yukimemi/admintask",
            "/home/u/src/DeviceManagement",
        ),
        (
            "github.com/yukimemi/admintask",
            "/home/u/old/admintask-backup",
        ),
        ("github.com/yukimemi/shoka", "/home/u/src/shoka"),
    ]));
    app.filter = "backup".into();
    app.refilter();
    assert_eq!(
        app.matches.len(),
        1,
        "exactly one row should match `backup`: {:?}",
        app.matches
            .iter()
            .map(|&i| &app.rows[i].path)
            .collect::<Vec<_>>()
    );
    assert_eq!(
        app.rows[app.matches[0]].path,
        "/home/u/old/admintask-backup"
    );
}

#[test]
fn better_matches_come_first_and_equal_ones_keep_their_order() {
    let mut app = app(rows(&["x-s-h-o-k-a", "shoka", "shoka"]));
    app.filter = "shoka".into();
    app.refilter();
    assert_eq!(app.matches, vec![1, 2, 0]);
}

#[test]
fn long_queries_of_short_words_are_matched() {
    let mut app = app(rows(&["github.com/u/other", "github.com/u/shoka"]));
    app.filter = "shoka u ".repeat(1000);
    app.refilter();
    assert_eq!(app.matches, vec![1]);
    app.filter = "shoka".repeat(1000);
    app.refilter();
    assert!(app.matches.is_empty());
}

#[test]
fn long_texts_are_matched_by_short_words() {
    let long = format!("github.com/u/{}", "shoka".repeat(2000));
    let mut app = app(rows(&[&long, "github.com/u/x"]));
    app.filter = format!("{} u", "shoka".repeat(500));
    app.refilter();
    assert_eq!(app.matches, vec![0]);
}

fn points(query: &str, key: &str) -> Option<u32> {
    score(query, key, &mut nucleo::Matcher::default())
}

/// What the matcher itself gives.
fn matched(query: &str, key: &str) -> Option<u32> {
    let pattern = nucleo::pattern::Pattern::parse(
        query,
        nucleo::pattern::CaseMatching::Smart,
        nucleo::pattern::Normalization::Smart,
    );
    let mut buf = Vec::new();
    pattern.score(
        nucleo::Utf32Str::new(key, &mut buf),
        &mut nucleo::Matcher::default(),
    )
}

#[test]
fn long_words_are_scored_where_their_points_fit() {
    let cases = [
        ("a".repeat(2521), "ab".repeat(2521), true),
        ("a".repeat(5000), "ab".repeat(5000), true),
        ("a".repeat(3000), format!("x{}", "a".repeat(3200)), true),
        ("ab".repeat(1300), "aab".repeat(1300), true),
        ("aB".repeat(1300), "aB".repeat(1300), false),
        ("-".repeat(2900), "a-".repeat(2900), true),
        ("a\\ b".repeat(700), "xa by".repeat(700), true),
        ("é".repeat(2600), "ab".repeat(5000), false),
        ("ba".repeat(1500), "a".repeat(3000), false),
    ];
    for (query, key, shown) in cases {
        let what = format!("{} of {:?}", query.len(), query.chars().next());
        assert_eq!(points(&query, &key).is_some(), shown, "{what}");
        if shown {
            assert_eq!(points(&query, &key), matched(&query, &key), "{what}");
        }
    }
}

#[test]
fn long_negated_words_keep_the_texts_that_lack_them() {
    let shown = [
        ("a".repeat(3000), "a".repeat(2999)),
        ("b".repeat(3000), "ab".repeat(4000)),
        ("aab".repeat(1000), format!("{}aa", "ab".repeat(3000))),
        ("A".repeat(3000), "a".repeat(4000)),
        (format!("^{}$", "a".repeat(3000)), "a".repeat(2900)),
        ("é".repeat(3000), "e".repeat(4000)),
    ];
    for (word, key) in shown {
        assert_eq!(points(&format!("!{word}"), &key), Some(0), "{:?}", word.chars().next());
    }
    assert_eq!(points(&format!("!{}", "a".repeat(3000)), &"a".repeat(3000)), None);
}

#[test]
fn points_that_do_not_fit_are_not_counted() {
    // The matcher doubles the backslashes of a word that is not ASCII.
    let query = format!("é{}", "\\".repeat(2519));
    let key = format!("é{}", "\\".repeat(5037));
    assert_eq!(points(&query, &key), None);
    assert_eq!(points(&"a".repeat(2521), &"a".repeat(2521)), None);
    let most = "a".repeat(2520);
    assert_eq!(points(&most, &most), Some(65_530));
    assert_eq!(points(&most, &most), matched(&most, &most));
}

#[test]
fn refilter_resets_cursor_to_top() {
    let mut app = app(rows(&["a", "b", "c", "d"]));
    app.cursor = 3;
    app.refilter();
    assert_eq!(app.cursor, 0);
}

#[test]
fn navigation_clamps_at_edges() {
    let mut app = app(rows(&["a", "b", "c"]));
    app.move_up();
    assert_eq!(app.cursor, 0);
    app.move_down();
    app.move_down();
    app.move_down();
    assert_eq!(app.cursor, 2);
}

#[test]
fn navigation_on_empty_match_list_is_noop() {
    let mut app = app(rows(&[]));
    app.move_down();
    app.move_up();
    assert_eq!(app.cursor, 0);
    assert!(app.selected_row().is_none());
}

#[test]
fn selected_row_returns_underlying_shelf_index() {
    let mut app = app(rows(&["zzz", "aaa"]));
    app.filter = "aaa".into();
    app.refilter();
    assert_eq!(app.selected_row(), Some(1));
}

#[test]
fn mine_only_starts_active_when_own_owners_configured() {
    let rows = rows(&["github.com/yukimemi/shoka", "github.com/rust-lang/rust"]);
    let app = App::new(rows, vec!["yukimemi".into()]);
    assert!(app.mine_only, "should default to mine when own_owners set");
    let matched_slugs = matched_slugs(&app);
    assert_eq!(matched_slugs, vec!["github.com/yukimemi/shoka"]);
}

#[test]
fn mine_only_disabled_when_own_owners_empty() {
    let app = app(rows(&[
        "github.com/yukimemi/shoka",
        "github.com/rust-lang/rust",
    ]));
    assert!(!app.mine_only);
    assert_eq!(app.matches, vec![0, 1]);
}

#[test]
fn toggle_mine_only_flips_visible_set() {
    let rows = rows(&["github.com/yukimemi/shoka", "github.com/rust-lang/rust"]);
    let mut app = App::new(rows, vec!["yukimemi".into()]);
    app.toggle_mine_only();
    assert!(!app.mine_only);
    assert_eq!(app.matches.len(), 2);
    app.toggle_mine_only();
    assert!(app.mine_only);
    assert_eq!(app.matches.len(), 1);
}

#[test]
fn toggle_mine_only_is_noop_with_status_when_unconfigured() {
    let mut app = app(rows(&["github.com/yukimemi/shoka"]));
    app.toggle_mine_only();
    assert!(!app.mine_only, "should stay off when nothing to scope to");
    let msg = app.status_message.as_ref().expect("status banner set");
    assert!(
        msg.contains("own_owners"),
        "banner should point at the config key, got: {msg}"
    );
}

#[test]
fn mine_only_matches_owner_case_insensitively() {
    let rows = rows(&["github.com/yukimemi/shoka", "github.com/RUST-LANG/rust"]);
    let app = App::new(rows, vec!["YukimemI".into(), "rust-lang".into()]);
    assert!(app.mine_only);
    let matched = matched_slugs(&app);
    assert_eq!(matched.len(), 2, "both rows should match: {matched:?}");
    assert!(matched.contains(&"github.com/yukimemi/shoka"));
    assert!(matched.contains(&"github.com/RUST-LANG/rust"));
}

#[test]
fn mine_only_composes_with_text_filter() {
    let rows = rows(&[
        "github.com/yukimemi/shoka",
        "github.com/yukimemi/renri",
        "github.com/rust-lang/rust",
    ]);
    let mut app = App::new(rows, vec!["yukimemi".into()]);
    app.filter = "rust".into();
    app.refilter();
    assert!(
        app.matches.is_empty(),
        "non-mine matches must be hidden: {:?}",
        matched_slugs(&app)
    );
}

fn picker_items(items: &[(u64, &str, &[&str])]) -> Vec<PickerItem> {
    items
        .iter()
        .map(|(n, t, ls)| PickerItem {
            number: *n,
            title: (*t).into(),
            html_url: format!("https://github.com/x/y/issues/{n}"),
            labels: ls.iter().map(|s| (*s).into()).collect(),
        })
        .collect()
}

fn picker_error_message(picker: &Picker) -> &str {
    match &picker.state {
        PickerState::Error(msg) => msg.as_str(),
        other => panic!("expected PickerState::Error, got {other:?}"),
    }
}

fn picker_filter(picker: &Picker) -> &str {
    match &picker.state {
        PickerState::Loaded { filter, .. } => filter.as_str(),
        other => panic!("expected PickerState::Loaded, got {other:?}"),
    }
}

fn picker_matches(picker: &Picker) -> &[usize] {
    match &picker.state {
        PickerState::Loaded { matches, .. } => matches,
        other => panic!("expected PickerState::Loaded, got {other:?}"),
    }
}

#[test]
fn picker_refilter_empty_query_keeps_identity_order() {
    let mut p = Picker::loaded(
        PickerKind::Issues,
        "x/y/z".into(),
        picker_items(&[(1, "alpha", &[]), (2, "beta", &[]), (3, "gamma", &[])]),
    );
    p.refilter();
    assert_eq!(picker_matches(&p), &[0, 1, 2]);
}

#[test]
fn picker_refilter_narrows_against_title_and_labels() {
    let mut p = Picker::loaded(
        PickerKind::Issues,
        "x/y/z".into(),
        picker_items(&[
            (1, "broken thing", &["bug"]),
            (2, "happy path", &["enhancement"]),
            (3, "another bug-fix", &[]),
        ]),
    );
    if let PickerState::Loaded { filter, .. } = &mut p.state {
        *filter = "bug".into();
    }
    p.refilter();
    let PickerState::Loaded { matches, items, .. } = &p.state else {
        panic!("expected loaded picker")
    };
    let matched: Vec<u64> = matches.iter().map(|&i| items[i].number).collect();
    assert!(
        matched.contains(&1) && matched.contains(&3),
        "expected items 1 + 3 to match, got: {matched:?}"
    );
    assert!(
        !matched.contains(&2),
        "item 2 should not match `bug`, got: {matched:?}"
    );
}

#[test]
fn picker_error_state_holds_message_and_blocks_selection() {
    let p = Picker::error(
        PickerKind::Prs,
        "github.com/x/y".into(),
        "no GITHUB_TOKEN".into(),
    );
    assert!(matches!(p.state, PickerState::Error(_)));
    assert_eq!(picker_error_message(&p), "no GITHUB_TOKEN");
    assert!(p.selected().is_none());
}

fn app_with_single_slug(slug: &str) -> App {
    app(rows(&[slug]))
}

fn key(code: KeyCode) -> KeyEvent {
    KeyEvent {
        code,
        control: false,
        release: false,
    }
}

const CTRL_C: KeyEvent = KeyEvent {
    code: KeyCode::Char('c'),
    control: true,
    release: false,
};

#[test]
fn open_picker_short_circuits_on_malformed_slug() {
    let mut app = app_with_single_slug("no-slashes-here");
    assert!(open_picker(&mut app, PickerKind::Issues).is_none());
    let picker = app.picker.as_ref().expect("error picker installed");
    let err = picker_error_message(picker);
    assert!(
        err.contains("no-slashes-here"),
        "malformed-slug error should mention the slug, got: {err}"
    );
}

#[test]
fn open_picker_short_circuits_on_non_github_host() {
    let mut app = app_with_single_slug("gitlab.com/some/proj");
    assert!(open_picker(&mut app, PickerKind::Prs).is_none());
    let picker = app.picker.as_ref().expect("error picker installed");
    let err = picker_error_message(picker);
    assert!(
        err.contains("github.com") && err.contains("gitlab.com"),
        "non-github error should mention both the requirement and the actual host, got: {err}"
    );
    assert!(
        err.contains(PickerKind::Prs.title()),
        "error should name the kind so the user knows what they tried to open, got: {err}"
    );
}

#[test]
fn open_picker_asks_for_the_items_of_a_github_repository() {
    let mut app = app_with_single_slug("github.com/foo/bar/baz");
    let request = open_picker(&mut app, PickerKind::Issues).unwrap();
    assert_eq!(request.kind, PickerKind::Issues);
    assert_eq!(request.owner, "foo");
    assert_eq!(request.name, "bar/baz");
    let picker = app.picker.as_mut().unwrap();
    assert!(picker.is_loading());
    assert_eq!(picker.repo_label, "github.com/foo/bar/baz");
    assert!(!picker.poll_fetch(FetchEvent::Pending));
    let items = picker_items(&[(1, "alpha", &[])]);
    assert!(picker.poll_fetch(fetch_event(FetchOutcome::Items(items))));
    assert_eq!(picker.selected().unwrap().number, 1);
    assert!(!picker.poll_fetch(FetchEvent::Lost));
}

#[test]
fn failed_fetches_say_why() {
    let told = |outcome: FetchOutcome| {
        let mut p = Picker::loading(PickerKind::Prs, "x".into());
        assert!(p.poll_fetch(fetch_event(outcome)));
        picker_error_message(&p).to_string()
    };
    assert_eq!(
        told(FetchOutcome::NoToken),
        "no GITHUB_TOKEN — set the env var or run `gh auth login`"
    );
    assert_eq!(
        told(FetchOutcome::ClientFailed("tls".into())),
        "gh client init failed: tls"
    );
    assert_eq!(told(FetchOutcome::Failed("404".into())), "404");
}

#[test]
fn slugs_split_in_three() {
    assert_eq!(
        split_slug("h/o/n/x"),
        Some(("h".to_string(), "o".to_string(), "n/x".to_string()))
    );
    assert_eq!(split_slug("h/o"), None);
    assert_eq!(split_slug(""), None);
}

#[test]
fn handle_picker_key_esc_closes_picker() {
    let mut app = app(rows(&[]));
    app.picker = Some(Picker::loaded(
        PickerKind::Issues,
        "github.com/x/y".into(),
        picker_items(&[(1, "alpha", &[])]),
    ));
    handle_picker_key(&mut app, key(KeyCode::Esc));
    assert!(app.picker.is_none(), "Esc should close the picker");
}

#[test]
fn handle_picker_key_q_closes_picker() {
    let mut app = app(rows(&[]));
    app.picker = Some(Picker::loaded(
        PickerKind::Issues,
        "github.com/x/y".into(),
        picker_items(&[(1, "alpha", &[])]),
    ));
    handle_picker_key(&mut app, key(KeyCode::Char('q')));
    assert!(app.picker.is_none(), "q should close the picker");
}

#[test]
fn handle_picker_key_enter_on_empty_items_closes_without_browser_launch() {
    let mut app = app(rows(&[]));
    app.picker = Some(Picker::loaded(
        PickerKind::Issues,
        "github.com/x/y".into(),
        vec![],
    ));
    assert_eq!(handle_picker_key(&mut app, key(KeyCode::Enter)), None);
    assert!(
        app.picker.is_none(),
        "Enter should close the picker even with nothing to open"
    );
}

#[test]
fn enter_opens_the_marked_item() {
    let mut app = app(rows(&[]));
    app.picker = Some(Picker::loaded(
        PickerKind::Issues,
        "github.com/x/y".into(),
        picker_items(&[(1, "alpha", &[]), (2, "beta", &[])]),
    ));
    handle_picker_key(&mut app, key(KeyCode::Char('j')));
    handle_picker_key(&mut app, key(KeyCode::Down));
    handle_picker_key(&mut app, key(KeyCode::Up));
    handle_picker_key(&mut app, key(KeyCode::Down));
    assert_eq!(
        handle_picker_key(&mut app, key(KeyCode::Enter)).as_deref(),
        Some("https://github.com/x/y/issues/2")
    );
    assert!(app.picker.is_none());
}

#[test]
fn handle_picker_key_char_appends_to_filter_and_refilters() {
    let mut app = app(rows(&[]));
    app.picker = Some(Picker::loaded(
        PickerKind::Issues,
        "github.com/x/y".into(),
        picker_items(&[(1, "alpha", &[]), (2, "zeta", &[])]),
    ));
    handle_picker_key(&mut app, key(KeyCode::Char('a')));
    let picker = app.picker.as_ref().unwrap();
    assert_eq!(picker_filter(picker), "a");
    assert!(!picker_matches(picker).is_empty());
}

#[test]
fn handle_picker_key_backspace_pops_and_refilters() {
    let mut app = app(rows(&[]));
    let mut p = Picker::loaded(
        PickerKind::Issues,
        "github.com/x/y".into(),
        picker_items(&[(1, "alpha", &[])]),
    );
    if let PickerState::Loaded { filter, .. } = &mut p.state {
        *filter = "ab".into();
    }
    p.refilter();
    app.picker = Some(p);
    handle_picker_key(&mut app, key(KeyCode::Backspace));
    let picker = app.picker.as_ref().unwrap();
    assert_eq!(picker_filter(picker), "a");
}

#[test]
fn loading_state_swallows_navigation_until_fetch_lands() {
    let mut app = App::new(rows(&[]), Vec::new());
    app.picker = Some(Picker::loading(PickerKind::Issues, "github.com/x/y".into()));
    assert!(app.picker.as_ref().unwrap().is_loading());

    for code in [
        KeyCode::Char('j'),
        KeyCode::Char('k'),
        KeyCode::Enter,
        KeyCode::Char('a'),
        KeyCode::Backspace,
    ] {
        handle_picker_key(&mut app, key(code));
        let picker = app.picker.as_ref().expect("picker survives ignored key");
        assert!(
            picker.is_loading(),
            "key {code:?} must not transition the picker out of Loading"
        );
    }

    handle_picker_key(&mut app, key(KeyCode::Esc));
    assert!(
        app.picker.is_none(),
        "Esc on Loading must still close the picker"
    );
}

#[test]
fn poll_fetch_closed_channel_transitions_to_error() {
    let mut picker = Picker::loading(PickerKind::Issues, "github.com/x/y".into());
    assert!(
        picker.poll_fetch(FetchEvent::Lost),
        "closed channel must transition state"
    );
    assert!(matches!(picker.state, PickerState::Error(_)));
}

#[test]
fn run_action_for_selected_noop_when_no_selection() {
    let mut app = app(rows(&[]));
    assert!(run_action_for_selected(&mut app, ActionKind::Fetch).is_none());
    assert!(
        app.action_popup.is_none(),
        "no row selected → no popup should be set"
    );
}

#[test]
fn action_without_vcs_is_shown_as_an_error() {
    let mut app = app(vec![row("local/test/repo", "/t/x")]);
    let request = run_action_for_selected(&app, ActionKind::Fetch).unwrap();
    assert_eq!(request.path, "/t/x");
    let result = action_vcs(&request.path, None).map(|_| panic!("there is no system"));
    record_action(&mut app, request, result);
    let popup = app.action_popup.as_ref().expect("popup installed");
    assert!(
        popup.outcome.is_none(),
        "no-VCS branch should leave `outcome` None to drive the error styling"
    );
    assert!(
        !popup.error.is_empty(),
        "error message must be populated so the user sees why the action failed"
    );
    assert_eq!(popup.kind, ActionKind::Fetch);
    assert_eq!(popup.repo_label, "local/test/repo");
}

#[test]
fn yank_selected_slug_noop_when_no_selection() {
    let mut app = app(rows(&[]));
    assert!(yank_selected_slug(&mut app).is_none());
    assert!(
        app.status_message.is_none(),
        "no row selected → no status message should be set"
    );
}

#[test]
fn open_selected_repo_home_short_circuits_on_local_host() {
    let mut app = app_with_single_slug("local/scratch/notes");
    assert!(open_selected_repo_home(&mut app).is_none());
    let msg = app
        .status_message
        .as_ref()
        .expect("status banner installed");
    assert!(
        msg.contains("local-only"),
        "local-host status banner should mention the cause, got: {msg}"
    );
}

#[test]
fn open_selected_repo_home_noop_when_no_selection() {
    let mut app = app(rows(&[]));
    assert!(open_selected_repo_home(&mut app).is_none());
    assert!(
        app.status_message.is_none(),
        "no row selected → no status message should be set"
    );
}

fn press(app: &mut App, code: KeyCode) -> Step {
    handle_key(app, key(code))
}

#[test]
fn keys_move_the_mark() {
    let mut app = app(rows(&["a", "b", "c"]));
    press(&mut app, KeyCode::Char('j'));
    assert_eq!(app.cursor, 1);
    press(&mut app, KeyCode::Char('G'));
    assert_eq!(app.cursor, 2);
    press(&mut app, KeyCode::Up);
    assert_eq!(app.cursor, 1);
    press(&mut app, KeyCode::Char('g'));
    assert_eq!(app.cursor, 0);
    assert_eq!(app.table_selection(), Some(0));
    press(&mut app, KeyCode::Down);
    assert!(matches!(press(&mut app, KeyCode::Enter), Step::Exit(Some(1))));
}

#[test]
fn key_that_is_let_go_does_nothing() {
    let mut app = app(rows(&["a", "b"]));
    let mut event = key(KeyCode::Char('j'));
    event.release = true;
    assert!(matches!(handle_key(&mut app, event), Step::Stay));
    assert_eq!(app.cursor, 0);
}

#[test]
fn ctrl_c_leaves_whatever_lies_on_top() {
    let mut app = app(rows(&["a"]));
    assert!(matches!(handle_key(&mut app, CTRL_C), Step::Exit(None)));
    app.show_help = true;
    assert!(matches!(handle_key(&mut app, CTRL_C), Step::Exit(None)));
    app.picker = Some(Picker::loading(PickerKind::Issues, "x".into()));
    assert!(matches!(handle_key(&mut app, CTRL_C), Step::Exit(None)));
    for code in [KeyCode::Char('q'), KeyCode::Esc] {
        let mut fresh = App::new(rows(&["a"]), vec![]);
        assert!(matches!(press(&mut fresh, code), Step::Exit(None)));
    }
}

#[test]
fn filter_is_typed_and_taken_back() {
    let mut app = app(rows(&["alpha", "beta"]));
    press(&mut app, KeyCode::Char('/'));
    assert_eq!(app.mode, Mode::Filter);
    press(&mut app, KeyCode::Char('q'));
    handle_key(&mut app, CTRL_C);
    assert_eq!(app.filter, "qc");
    press(&mut app, KeyCode::Backspace);
    press(&mut app, KeyCode::Backspace);
    assert_eq!(app.filter, "");
    assert_eq!(app.matches, vec![0, 1]);
    press(&mut app, KeyCode::Char('b'));
    press(&mut app, KeyCode::Enter);
    assert_eq!(app.mode, Mode::Normal);
    assert_eq!(matched_slugs(&app), vec!["beta"]);
    press(&mut app, KeyCode::Char('/'));
    press(&mut app, KeyCode::Esc);
    assert_eq!(app.filter, "");
    assert_eq!(app.matches, vec![0, 1]);
    assert_eq!(app.mode, Mode::Normal);
}

#[test]
fn help_is_shown_until_it_is_dismissed() {
    let mut app = app(rows(&["a", "b"]));
    press(&mut app, KeyCode::F(1));
    assert!(app.show_help);
    assert!(matches!(press(&mut app, KeyCode::Char('j')), Step::Stay));
    assert_eq!(app.cursor, 0);
    assert!(matches!(press(&mut app, KeyCode::Char('q')), Step::Stay));
    assert!(!app.show_help);
    press(&mut app, KeyCode::Char('?'));
    press(&mut app, KeyCode::Char('?'));
    assert!(!app.show_help);
}

#[test]
fn actions_are_asked_for_and_their_result_is_shown() {
    let mut app = app(vec![row("github.com/u/n", "/w/n")]);
    let request = match press(&mut app, KeyCode::Char('P')) {
        Step::Act(request) => request,
        other => panic!("expected an action, got {other:?}"),
    };
    assert_eq!(request.kind, ActionKind::Push);
    let outcome = ActionOutcome {
        success: true,
        stdout: "ok".into(),
        stderr: String::new(),
        vcs: VcsKind::Git,
        command: "git push".into(),
    };
    record_action(&mut app, request, Ok(outcome));
    assert!(app.action_popup.as_ref().unwrap().outcome.is_some());
    assert!(matches!(press(&mut app, KeyCode::Char('q')), Step::Stay));
    assert!(app.action_popup.is_none());
    assert!(matches!(
        press(&mut app, KeyCode::Char('f')),
        Step::Act(a) if a.kind == ActionKind::Fetch && a.path == "/w/n"
    ));
}

#[test]
fn notes_stay_until_the_next_key() {
    let mut app = app(vec![row("github.com/u/n", "/w/n")]);
    match press(&mut app, KeyCode::Char('y')) {
        Step::Yank(slug) => record_yank(&mut app, &slug, None),
        other => panic!("expected a slug, got {other:?}"),
    }
    assert_eq!(app.status_message.as_deref(), Some("yanked: github.com/u/n"));
    press(&mut app, KeyCode::Char('j'));
    assert_eq!(app.status_message, None);
    record_yank(&mut app, "x", Some("no clipboard"));
    assert_eq!(app.status_message.as_deref(), Some("yank failed: no clipboard"));
    match press(&mut app, KeyCode::Char('o')) {
        Step::OpenHome(url) => {
            assert_eq!(url, "https://github.com/u/n");
            record_open(&mut app, &url, None);
        }
        other => panic!("expected an address, got {other:?}"),
    }
    assert_eq!(
        app.status_message.as_deref(),
        Some("opened: https://github.com/u/n")
    );
    record_open(&mut app, "u", Some("no browser"));
    assert_eq!(app.status_message.as_deref(), Some("open failed: no browser"));
}

#[test]
fn pickers_open_and_hand_out_their_item() {
    let mut app = app(vec![row("github.com/u/n", "/w/n")]);
    assert!(matches!(
        press(&mut app, KeyCode::Char('i')),
        Step::Fetch(f) if f.kind == PickerKind::Issues && f.owner == "u" && f.name == "n"
    ));
    let picker = app.picker.as_mut().unwrap();
    picker.poll_fetch(FetchEvent::Items(picker_items(&[(7, "alpha", &[])])));
    assert!(matches!(
        press(&mut app, KeyCode::Enter),
        Step::OpenItem(url) if url == "https://github.com/x/y/issues/7"
    ));
    assert!(matches!(
        press(&mut app, KeyCode::Char('p')),
        Step::Fetch(f) if f.kind == PickerKind::Prs
    ));
}
