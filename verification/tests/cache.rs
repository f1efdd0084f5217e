use shoka::cache::{current_unix_secs, Cache, RepoCache, CACHE_VERSION};
use shoka::gh::{CiStatus, GhSnapshot};
use shoka::paths::ShokaPaths;
use shoka::state::Repo;

fn sample(name: &str) -> Repo {
    Repo::new("github.com", "yukimemi", name)
}

fn pinned(name: &str, path: &str) -> Repo {
    Repo::new("github.com", "yukimemi", name).with_path(path.to_string())
}

#[test]
fn missing_file_yields_empty_cache() {
    let c = Cache::load_from("/c/cache.toml", None).expect("missing -> default");
    assert_eq!(c.version, CACHE_VERSION);
    assert!(c.repos.is_empty());
}

#[test]
fn cache_save_then_load_round_trip() {
    let target = "/c/nested/cache.toml";
    let mut c = Cache::default();
    c.upsert(&sample("shoka")).last_refreshed = Some(1_700_000_000);
    c.upsert(&sample("renri"));
    assert_eq!(c.save_to(target, 7).target, target);

    let loaded = Cache::load_from(target, Some(c)).unwrap();
    assert_eq!(loaded.repos.len(), 2);
    assert_eq!(
        loaded
            .find("github.com", "yukimemi", "shoka", None)
            .unwrap()
            .last_refreshed,
        Some(1_700_000_000)
    );
    assert!(loaded
        .find("github.com", "yukimemi", "renri", None)
        .unwrap()
        .last_refreshed
        .is_none());
}

#[test]
fn save_goes_by_way_of_a_sibling_per_process() {
    let c = Cache::default();
    let plan = c.save_to("/c/cache.toml", 4321);
    assert_eq!(plan.dir.as_deref(), Some("/c"));
    assert_eq!(plan.temp, "/c/cache.toml.4321.tmp");
    assert_ne!(plan.temp, c.save_to("/c/cache.toml", 4322).temp);
}

#[test]
fn cache_is_saved_to_and_loaded_from_the_cache_file() {
    let paths = ShokaPaths::rooted_at("/r");
    assert_eq!(Cache::default().save(&paths, 1).target, paths.cache_file());
    let newer = Cache { version: CACHE_VERSION + 1, repos: Vec::new() };
    let err = Cache::load(&paths, Some(newer)).unwrap_err();
    assert_eq!(err.path, paths.cache_file());
    assert!(Cache::load(&paths, None).unwrap().is_empty());
}

#[test]
fn cache_future_version_fails_load() {
    let newer = Cache { version: CACHE_VERSION + 1, repos: Vec::new() };
    let err = Cache::load_from("/c/cache.toml", Some(newer)).unwrap_err();
    assert!(
        err.message().contains("newer"),
        "error should mention newer schema: {}",
        err.message()
    );
}

#[test]
fn upsert_creates_then_updates() {
    let mut c = Cache::default();
    let r = sample("shoka");
    let entry1 = c.upsert(&r);
    entry1.last_refreshed = Some(100);
    assert_eq!(c.len(), 1);

    let entry2 = c.upsert(&r);
    assert_eq!(entry2.last_refreshed, Some(100));
    entry2.last_refreshed = Some(200);
    assert_eq!(c.len(), 1);
    assert_eq!(
        c.find("github.com", "yukimemi", "shoka", None)
            .unwrap()
            .last_refreshed,
        Some(200)
    );
}

#[test]
fn is_stale_treats_unrefreshed_as_stale() {
    let r = RepoCache::new("github.com", "u", "n");
    assert!(r.is_stale(60, 1_700_000_000));
}

#[test]
fn is_stale_within_threshold_is_fresh() {
    let mut r = RepoCache::new("github.com", "u", "n");
    r.last_refreshed = Some(1_700_000_000);
    assert!(!r.is_stale(60, 1_700_000_000 + 30));
    assert!(!r.is_stale(60, 1_700_000_000 + 60));
}

#[test]
fn is_stale_beyond_threshold_is_stale() {
    let mut r = RepoCache::new("github.com", "u", "n");
    r.last_refreshed = Some(1_700_000_000);
    assert!(r.is_stale(60, 1_700_000_000 + 61));
    assert!(r.is_stale(60, 1_700_000_000 + 3600));
}

#[test]
fn is_stale_handles_clock_skew_safely() {
    let mut r = RepoCache::new("github.com", "u", "n");
    r.last_refreshed = Some(1_700_000_100);
    assert!(!r.is_stale(60, 1_700_000_000));
}

#[test]
fn remove_returns_entry_and_shrinks_cache() {
    let mut c = Cache::default();
    c.upsert(&sample("shoka"));
    c.upsert(&sample("renri"));
    let removed = c.remove("github.com", "yukimemi", "shoka", None).unwrap();
    assert_eq!(removed.name, "shoka");
    assert_eq!(c.len(), 1);
    assert!(c.remove("github.com", "yukimemi", "ghost", None).is_none());
}

#[test]
fn path_aware_round_trip_keeps_two_clones_independent() {
    let target = "/c/cache.toml";
    let mut c = Cache::default();
    c.upsert(&pinned("shoka", "/home/u/a/shoka")).last_refreshed = Some(100);
    c.upsert(&pinned("shoka", "/home/u/b/shoka")).last_refreshed = Some(200);
    assert_eq!(c.len(), 2);

    let loaded = Cache::load_from(target, Some(c)).unwrap();
    assert_eq!(loaded.len(), 2);
    let a = loaded
        .find("github.com", "yukimemi", "shoka", Some("/home/u/a/shoka"))
        .expect("path-a entry survives round trip");
    let b = loaded
        .find("github.com", "yukimemi", "shoka", Some("/home/u/b/shoka"))
        .expect("path-b entry survives round trip");
    assert_eq!(a.last_refreshed, Some(100));
    assert_eq!(b.last_refreshed, Some(200));
}

#[test]
fn find_with_mismatched_path_returns_none() {
    let mut c = Cache::default();
    c.upsert(&pinned("shoka", "/home/u/a/shoka"));
    assert!(
        c.find("github.com", "yukimemi", "shoka", None).is_none(),
        "triple-less query must not match a path-pinned entry"
    );
    assert!(
        c.find("github.com", "yukimemi", "shoka", Some("/home/u/b/shoka"))
            .is_none(),
        "wrong-path query must not match a different-path entry"
    );
}

#[test]
fn find_any_by_triple_returns_first_match_regardless_of_path() {
    let mut c = Cache::default();
    c.upsert(&pinned("shoka", "/home/u/a/shoka")).gh = None;
    c.upsert(&pinned("shoka", "/home/u/b/shoka")).gh = None;
    assert!(c
        .find_any_by_triple("github.com", "yukimemi", "shoka")
        .is_some());
    assert!(c
        .find_any_by_triple("github.com", "yukimemi", "ghost")
        .is_none());
}

#[test]
fn find_gh_by_triple_prefers_populated_sibling_over_unpopulated_first_row() {
    let populated = GhSnapshot {
        open_pr_count: Some(3),
        ci_status: Some(CiStatus::Success),
        weekly_commits: None,
    };

    let mut c = Cache::default();
    c.upsert(&pinned("shoka", "/home/u/a/shoka")).gh = None;
    c.upsert(&pinned("shoka", "/home/u/b/shoka")).gh = Some(populated.clone());

    let found = c
        .find_gh_by_triple("github.com", "yukimemi", "shoka")
        .expect("populated sibling must be reachable");
    assert_eq!(found, &populated);
}

#[test]
fn find_gh_by_triple_returns_none_when_every_sibling_is_unpopulated() {
    let mut c = Cache::default();
    c.upsert(&pinned("shoka", "/home/u/a/shoka")).gh = None;
    c.upsert(&pinned("shoka", "/home/u/b/shoka")).gh = None;
    assert!(c
        .find_gh_by_triple("github.com", "yukimemi", "shoka")
        .is_none());
}

#[test]
fn upsert_promotes_legacy_path_less_entry_to_path_pinned() {
    let mut c = Cache::default();
    c.repos
        .push(RepoCache::new("github.com", "yukimemi", "shoka"));
    c.repos[0].last_refreshed = Some(500);

    let entry = c.upsert(&pinned("shoka", "/home/u/a/shoka"));
    entry.last_refreshed = Some(1000);
    assert_eq!(c.len(), 1, "promotion must reuse the legacy row");
    assert_eq!(c.repos[0].path.as_deref(), Some("/home/u/a/shoka"));
    assert_eq!(c.repos[0].last_refreshed, Some(1000));
}

#[test]
fn upsert_creates_distinct_rows_for_two_clones_of_same_remote() {
    let mut c = Cache::default();
    c.upsert(&pinned("shoka", "/home/u/a/shoka")).last_refreshed = Some(100);
    c.upsert(&pinned("shoka", "/home/u/b/shoka")).last_refreshed = Some(200);
    assert_eq!(c.len(), 2, "different paths -> different rows");
    assert_eq!(
        c.find("github.com", "yukimemi", "shoka", Some("/home/u/a/shoka"))
            .unwrap()
            .last_refreshed,
        Some(100)
    );
    assert_eq!(
        c.find("github.com", "yukimemi", "shoka", Some("/home/u/b/shoka"))
            .unwrap()
            .last_refreshed,
        Some(200)
    );
}

#[test]
fn remove_strict_path_does_not_take_siblings() {
    let mut c = Cache::default();
    c.upsert(&pinned("shoka", "/home/u/a/shoka"));
    c.upsert(&pinned("shoka", "/home/u/b/shoka"));
    let removed = c
        .remove("github.com", "yukimemi", "shoka", Some("/home/u/a/shoka"))
        .expect("targeted row removed");
    assert_eq!(removed.path.as_deref(), Some("/home/u/a/shoka"));
    assert_eq!(c.len(), 1);
    assert!(
        c.find("github.com", "yukimemi", "shoka", Some("/home/u/b/shoka"))
            .is_some(),
        "sibling clone must survive"
    );
}

#[test]
fn older_schema_is_loaded_as_it_is() {
    let old = Cache {
        version: 3,
        repos: vec![RepoCache::new("github.com", "yukimemi", "shoka")],
    };
    let loaded = Cache::load_from("/c/cache.toml", Some(old)).unwrap();
    assert_eq!(loaded.version, 3);
    assert_eq!(loaded.len(), 1);
    assert_eq!(loaded.repos[0].path, None);
}

#[test]
fn find_mut_changes_the_row_it_found() {
    let mut c = Cache::default();
    c.upsert(&sample("shoka"));
    c.find_mut("github.com", "yukimemi", "shoka", None)
        .unwrap()
        .last_refreshed = Some(9);
    assert_eq!(c.repos[0].last_refreshed, Some(9));
    assert!(c.find_mut("github.com", "yukimemi", "ghost", None).is_none());
    assert_eq!(c.repos[0].slug(), "github.com/yukimemi/shoka");
}

#[test]
fn clock_before_the_epoch_reads_as_zero() {
    assert_eq!(current_unix_secs(None), 0);
    assert_eq!(current_unix_secs(Some(1_700_000_000)), 1_700_000_000);
}
