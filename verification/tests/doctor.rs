use shoka::cache::Cache;
use shoka::commands::doctor::{cache_line, config_lines, path_lines, route_line, shelf_line};
use shoka::config::{Route, ShokaConfig, VcsDefault};
use shoka::paths::ShokaPaths;
use shoka::state::{Repo, Shelf};

#[test]
fn report_on_paths_and_configuration() {
    let lines = path_lines(&ShokaPaths::rooted_at("/r"));
    assert_eq!(lines[0], "  config file : /r/config.toml");
    assert_eq!(lines[5], "  cache file  : /r/cache.toml");

    let mut cfg = ShokaConfig::default();
    cfg.global.root = Some("/w".into());
    cfg.routes = vec![Route {
        pattern: "host:github.com".into(),
        root: None,
        layout: None,
        default_vcs: Some(VcsDefault::Jj),
        default_protocol: None,
    }];
    let resolved = cfg.resolve(None, None).unwrap();
    let lines = config_lines(&resolved);
    assert_eq!(lines[0], "  root           : /w");
    assert_eq!(lines[4], "  default host   : github.com");
    assert_eq!(
        route_line(0, &resolved.routes[0]),
        "[0] host:github.com → vcs=Jj"
    );
}

#[test]
fn report_on_shelf_and_cache() {
    let mut shelf = Shelf::default();
    assert_eq!(shelf_line(&shelf), None);
    shelf.add(Repo::new("github.com", "u", "n")).unwrap();
    assert_eq!(
        shelf_line(&shelf).unwrap(),
        "1 repos on the shelf (schema v1)"
    );

    let mut cache = Cache::default();
    assert_eq!(cache_line(&cache, 100), None);
    cache.upsert(&shelf.repos[0]);
    assert_eq!(
        cache_line(&cache, 100).unwrap(),
        "1 entries (schema v4) (none refreshed yet)"
    );
    cache.repos[0].last_refreshed = Some(60);
    cache.upsert(&Repo::new("github.com", "u", "m")).last_refreshed = Some(90);
    assert_eq!(
        cache_line(&cache, 100).unwrap(),
        "2 entries (schema v4) — freshest 10s ago, oldest 40s ago"
    );
}
