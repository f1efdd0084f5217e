use shoka::cache::Cache;
use shoka::commands::cache::{
    background_line, bg_refresh_creation_flags, silent_creation_flags, summary,
    try_spawn_bg_refresh, GhReply, Refresh, RefreshParams, RefreshStep, CREATE_NEW_PROCESS_GROUP,
    CREATE_NO_WINDOW, DETACHED_PROCESS,
};
use shoka::config::ConfigError;
use shoka::gh::{CiStatus, GhSnapshot};
use shoka::git_status::GitStatusSnapshot;
use shoka::paths::ShokaPaths;
use shoka::state::{has_all_tags, Repo, Shelf};

fn sample(name: &str) -> Repo {
    Repo::new("github.com", "yukimemi", name)
}

#[test]
fn refresh_walks_shelf_and_marks_entries() {
    let mut shelf = Shelf::default();
    shelf.add(sample("shoka")).unwrap();
    shelf.add(sample("renri")).unwrap();
    let mut cache = Cache::default();
    let now = 1_700_000_000;
    let threshold = 60;

    for repo in &shelf.repos {
        let entry = cache.upsert(repo);
        if entry.is_stale(threshold, now) {
            entry.last_refreshed = Some(now);
        }
    }
    assert_eq!(cache.len(), 2);
    assert_eq!(
        cache
            .find("github.com", "yukimemi", "shoka", None)
            .unwrap()
            .last_refreshed,
        Some(now)
    );
}

#[test]
fn refresh_respects_threshold_without_force() {
    let mut cache = Cache::default();
    let repo = sample("shoka");
    cache.upsert(&repo).last_refreshed = Some(1_700_000_000);

    let entry = cache
        .find_mut("github.com", "yukimemi", "shoka", None)
        .unwrap();
    assert!(!entry.is_stale(60, 1_700_000_010));
    let entry = cache
        .find_mut("github.com", "yukimemi", "shoka", None)
        .unwrap();
    assert!(entry.is_stale(60, 1_700_000_120));
}

#[test]
fn clear_empties_cache_file_atomically() {
    let paths = ShokaPaths::rooted_at("/r");
    let mut cache = Cache::default();
    cache.upsert(&sample("shoka")).last_refreshed = Some(1);
    assert_eq!(cache.save(&paths, 1).target, paths.cache_file());

    let cleared = Cache::default();
    assert_eq!(cleared.save(&paths, 1).target, paths.cache_file());
    let loaded = Cache::load(&paths, Some(cleared)).unwrap();
    assert!(loaded.is_empty());
}

#[test]
fn has_all_tags_and_semantics() {
    let mut repo = sample("shoka");
    repo.tags = vec!["rust".into(), "cli".into()];
    assert!(has_all_tags(&repo, &["rust".into()]));
    assert!(has_all_tags(&repo, &["rust".into(), "cli".into()]));
    assert!(!has_all_tags(
        &repo,
        &["rust".into(), "cli".into(), "tui".into()]
    ));
    assert!(has_all_tags(&repo, &[]));
}

fn params(force: bool, tags: &[&str]) -> RefreshParams {
    RefreshParams {
        now: 1000,
        threshold_secs: 60,
        force,
        tags: tags.iter().map(|t| t.to_string()).collect(),
        has_client: true,
    }
}

fn clean() -> GitStatusSnapshot {
    GitStatusSnapshot {
        branch: Some("main".into()),
        dirty: false,
        ahead: Some(0),
        behind: Some(0),
    }
}

#[test]
fn each_row_is_considered_and_recorded() {
    let mut refresh = Refresh::new(Cache::default());
    let repo = sample("shoka");
    let at = || Ok("/w/shoka".to_string());
    assert!(matches!(
        refresh.consider(&repo, at(), &params(false, &["rust"])),
        RefreshStep::Filtered
    ));
    assert!(matches!(
        refresh.consider(&repo, at(), &params(false, &[])),
        RefreshStep::Capture { path, want_gh: true } if path == "/w/shoka"
    ));
    let snap = GhSnapshot {
        open_pr_count: Some(2),
        ci_status: Some(CiStatus::Success),
        weekly_commits: None,
    };
    refresh.record(&repo, Some(clean()), GhReply::Snapshot(snap.clone()), 1000);
    assert!(matches!(
        refresh.consider(&repo, at(), &params(false, &[])),
        RefreshStep::Fresh
    ));
    assert!(matches!(
        refresh.consider(&repo, at(), &params(true, &[])),
        RefreshStep::Capture { .. }
    ));
    assert!(matches!(
        refresh.consider(&repo, Err(ConfigError::NoRoot), &params(true, &[])),
        RefreshStep::NoPath(_)
    ));
    let row = refresh.cache.find("github.com", "yukimemi", "shoka", None).unwrap();
    assert_eq!(row.last_refreshed, Some(1000));
    assert_eq!(row.git_status, Some(clean()));
    assert_eq!(row.gh, Some(snap));
    assert_eq!(refresh.counts.refreshed, 1);
    assert_eq!(refresh.counts.skipped_filter, 1);
    assert_eq!(refresh.counts.skipped_threshold, 1);
    assert_eq!(refresh.counts.capture_errors, 1);
}

#[test]
fn failed_captures_keep_the_last_state() {
    let mut refresh = Refresh::new(Cache::default());
    let repo = sample("shoka");
    refresh.record(&repo, Some(clean()), GhReply::NotAsked, 1000);
    refresh.record(&repo, None, GhReply::Failed, 2000);
    let row = refresh.cache.find("github.com", "yukimemi", "shoka", None).unwrap();
    assert_eq!(row.git_status, Some(clean()));
    assert_eq!(row.last_refreshed, Some(2000));
    assert_eq!(refresh.counts.capture_errors, 1);
    assert_eq!(refresh.counts.gh_errors, 1);
}

#[test]
fn only_github_is_asked() {
    let mut refresh = Refresh::new(Cache::default());
    let local = Repo::new("local", "a", "b");
    assert!(matches!(
        refresh.consider(&local, Ok("/w/b".to_string()), &params(false, &[])),
        RefreshStep::Capture { want_gh: false, .. }
    ));
}

#[test]
fn counts_are_summed_up() {
    let mut refresh = Refresh::new(Cache::default());
    refresh.record(&sample("a"), Some(clean()), GhReply::Failed, 1);
    assert_eq!(
        summary(&refresh.counts, true, 60, 2, false),
        vec![
            "refreshed 1 (forced) repo (2 on the shelf)",
            "1 gh API errors (rate limit / 404? previous snapshot kept)",
            "no GITHUB_TOKEN / gh CLI — PR + CI columns will stay empty",
        ]
    );
    assert_eq!(
        background_line(&refresh.counts, 2),
        "background cache refresh: 1 updated, 0 fresh, 0 filtered, 0 capture errors, 1 gh errors (2 on shelf)"
    );
}

#[test]
fn background_refresh_can_be_turned_off() {
    assert!(try_spawn_bg_refresh(false, "/bin/shoka", "/c/config.toml", None).is_none());
    let plan = try_spawn_bg_refresh(true, "/bin/shoka", "/c/config.toml", Some("work")).unwrap();
    assert_eq!(plan.exe, "/bin/shoka");
    assert_eq!(plan.args, vec!["cache", "refresh", "--background"]);
    assert_eq!(plan.config, "/c/config.toml");
    assert_eq!(plan.profile.as_deref(), Some("work"));
}

#[test]
fn bg_refresh_creation_flags_compose_all_three() {
    assert_eq!(DETACHED_PROCESS, 0x0000_0008);
    assert_eq!(CREATE_NEW_PROCESS_GROUP, 0x0000_0200);
    assert_eq!(CREATE_NO_WINDOW, 0x0800_0000);
    let flags = bg_refresh_creation_flags();
    assert_eq!(flags & DETACHED_PROCESS, DETACHED_PROCESS);
    assert_eq!(flags & CREATE_NEW_PROCESS_GROUP, CREATE_NEW_PROCESS_GROUP);
    assert_eq!(flags & CREATE_NO_WINDOW, CREATE_NO_WINDOW);
    assert_eq!(
        flags,
        DETACHED_PROCESS | CREATE_NEW_PROCESS_GROUP | CREATE_NO_WINDOW
    );
    assert_eq!(silent_creation_flags(), CREATE_NO_WINDOW);
}

#[test]
fn refreshed_row_is_passed_over_until_the_threshold() {
    let mut refresh = Refresh::new(Cache::default());
    let repo = sample("shoka");
    refresh.record(&repo, Some(clean()), GhReply::NotAsked, 940);
    let at = || Ok("/w/shoka".to_string());
    assert!(!matches!(
        refresh.consider(&repo, at(), &params(false, &[])),
        RefreshStep::Capture { .. }
    ));
    assert_eq!(refresh.cache.len(), 1);
    refresh.record(&repo, Some(clean()), GhReply::NotAsked, 939);
    assert!(matches!(
        refresh.consider(&repo, at(), &params(false, &[])),
        RefreshStep::Capture { .. }
    ));
    assert_eq!(refresh.cache.len(), 1);
}
