use shoka::paths::{PlatformDirs, ShokaPaths};
use std::path::Path;

#[test]
fn resolve_default_paths_contain_shoka() {
    let p = ShokaPaths::resolve(None, None, None).expect("paths resolve");
    assert!(
        p.config_dir().to_lowercase().contains("shoka"),
        "config_dir should contain `shoka`: {:?}",
        p.config_dir()
    );
    assert!(
        p.state_dir().to_lowercase().contains("shoka"),
        "state_dir should contain `shoka`: {:?}",
        p.state_dir()
    );
    assert_eq!(
        Path::new(&p.state_file()).file_name().and_then(|s| s.to_str()),
        Some("state.toml")
    );
    assert_eq!(
        Path::new(&p.cache_file()).file_name().and_then(|s| s.to_str()),
        Some("cache.toml")
    );
}

#[test]
fn resolve_with_absolute_override_names_the_file_itself() {
    let p = ShokaPaths::resolve(Some("/t/shoka-paths-test-abs/custom.toml"), None, None)
        .expect("paths resolve");
    assert_eq!(p.config_file(), "/t/shoka-paths-test-abs/custom.toml");
    assert_eq!(p.config_dir(), "/t/shoka-paths-test-abs");
}

#[test]
fn resolve_with_relative_override_becomes_absolute_via_cwd() {
    let p = ShokaPaths::resolve(Some("rel/config.toml"), None, None).expect("paths resolve");
    assert!(Path::new(p.config_file()).is_absolute(), "{:?}", p.config_file());
    assert!(Path::new(p.config_dir()).is_absolute(), "{:?}", p.config_dir());
}

#[test]
fn config_file_default_is_config_toml_in_config_dir() {
    let p = ShokaPaths::resolve(None, None, None).expect("paths resolve");
    assert_eq!(
        Path::new(p.config_file()),
        Path::new(p.config_dir()).join("config.toml")
    );
}

#[test]
fn environment_moves_state_and_cache() {
    let p = ShokaPaths::resolve(None, Some("/s"), Some("/c")).expect("paths resolve");
    assert_eq!(p.state_dir(), "/s");
    assert_eq!(p.cache_dir(), "/c");
    assert_eq!(p.state_file(), "/s/state.toml");
    assert_eq!(p.cache_file(), "/c/cache.toml");
}

#[test]
fn parts_are_put_together() {
    let dirs = PlatformDirs {
        config: "/p/config".to_string(),
        data: "/p/data".to_string(),
        cache: "/p/cache".to_string(),
    };
    let p = ShokaPaths::from_parts(dirs, None, None, None);
    assert_eq!(p.config_dir(), "/p/config");
    assert_eq!(p.config_file(), "/p/config/config.toml");
    assert_eq!(p.cache_dir(), "/p/cache");
}

#[test]
fn files_below_a_directory_of_windows() {
    let dirs = PlatformDirs {
        config: "C:\\Users\\u\\shoka\\config".to_string(),
        data: "/p/data".to_string(),
        cache: "\\\\srv\\shoka".to_string(),
    };
    let named = Some("D:\\c\\my.toml".to_string());
    let p = ShokaPaths::from_parts(dirs, named, None, None);
    assert_eq!(p.config_dir(), "D:\\c");
    assert_eq!(p.state_file(), "/p/data/state.toml");
    assert_eq!(p.cache_file(), "\\\\srv\\shoka\\cache.toml");
}

#[test]
fn paths_at_never_points_at_the_real_cache() {
    let paths = ShokaPaths::rooted_at("/tmp/shoka-test");
    assert!(
        paths.cache_file().starts_with("/tmp/shoka-test"),
        "cache must stay under the tempdir, got {:?}",
        paths.cache_file()
    );
    assert!(
        paths.state_file().starts_with("/tmp/shoka-test"),
        "state must stay under the tempdir, got {:?}",
        paths.state_file()
    );
}
