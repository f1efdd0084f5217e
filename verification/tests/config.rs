use shoka::config::{
    compile_pattern, expand_home, expand_tilde, files_to_load, protocol_str, vcs_str,
    write_starter, AutoUpdateMode, ConfigError, FoundFile, GlobalConfig, PatternFault,
    ProfileConfig, Protocol, ResolvedConfig, Route, ShokaConfig, UiConfig, VcsDefault,
    DEFAULT_LAYOUT, STARTER_CONFIG,
};
use shoka::paths::ShokaPaths;
use shoka::state::Repo;
use std::path::Path;

fn is_absolute(p: &str) -> bool {
    Path::new(p).is_absolute()
}

#[test]
fn compile_pattern_host_exact() {
    let p = compile_pattern("host:github.com").unwrap();
    assert!(p.matches("github.com"));
    assert!(p.matches("github.com/foo"));
    assert!(p.matches("github.com/foo/bar"));
    assert!(!p.matches("gitlab.com"));
    assert!(!p.matches("github.com.evil"));
}

#[test]
fn compile_pattern_host_owner() {
    let p = compile_pattern("host:github.com/yukimemi").unwrap();
    assert!(p.matches("github.com/yukimemi"));
    assert!(p.matches("github.com/yukimemi/shoka"));
    assert!(!p.matches("github.com/other"));
    assert!(!p.matches("github.com/yukimemi-other"));
    assert!(!p.matches("github.com"));
}

#[test]
fn compile_pattern_regex() {
    let p = compile_pattern(r"/^github\.com/foo-.*$/").unwrap();
    assert!(p.matches("github.com/foo-bar"));
    assert!(p.matches("github.com/foo-bar/baz"));
    assert!(!p.matches("github.com/bar"));
}

#[test]
fn compile_pattern_rejects_garbage() {
    for bad in [
        "github.com",
        "host:",
        "host:/",
        "host:foo/",
        "host:/bar",
        "/",
        "//",
        "host:foo/bar/baz",
    ] {
        assert!(
            compile_pattern(bad).is_err(),
            "pattern `{bad}` should fail to compile"
        );
    }
}

#[test]
fn each_refused_pattern_says_why() {
    let fault = |s: &str| compile_pattern(s).unwrap_err().fault;
    assert_eq!(fault("github.com"), PatternFault::Unknown);
    assert_eq!(fault("/"), PatternFault::Unknown);
    assert_eq!(fault("host:"), PatternFault::EmptyHost);
    assert_eq!(fault("host:foo/"), PatternFault::EmptySegment);
    assert_eq!(fault("host:foo/bar/baz"), PatternFault::TooDeep);
    assert_eq!(fault("//"), PatternFault::EmptyRegex);
    assert_eq!(fault("/[/"), PatternFault::BadRegex);
}

#[test]
fn compile_pattern_explicit_catchall_regex_works() {
    let p = compile_pattern("/.*/").unwrap();
    assert!(p.matches("github.com/foo/bar"));
    assert!(p.matches(""));
}

#[test]
fn compile_pattern_rejects_invalid_regex() {
    let err = compile_pattern("/[/").unwrap_err();
    assert!(
        err.message().contains("regex"),
        "error should mention regex: {}",
        err.message()
    );
}

fn route(pattern: &str, root: &str) -> Route {
    Route {
        pattern: pattern.into(),
        root: Some(root.into()),
        layout: None,
        default_vcs: None,
        default_protocol: None,
    }
}

fn resolved_with(routes: Vec<Route>) -> ResolvedConfig {
    ShokaConfig {
        global: GlobalConfig {
            root: Some("/global".into()),
            ..Default::default()
        },
        routes,
        ..Default::default()
    }
    .resolve(None, None)
    .expect("resolve")
}

#[test]
fn resolve_target_falls_back_to_global_when_no_route_matches() {
    let r = resolved_with(vec![route("host:gitlab.com", "/elsewhere")]);
    let t = r.resolve_target("github.com/foo/bar");
    assert!(t.matched_route.is_none());
    assert!(t.root.ends_with("global"));
}

#[test]
fn resolve_target_first_match_wins() {
    let r = resolved_with(vec![
        route("host:github.com/yukimemi", "/personal"),
        route("host:github.com", "/github-catchall"),
    ]);
    let t = r.resolve_target("github.com/yukimemi/shoka");
    assert_eq!(t.matched_route, Some(0));
    assert!(t.root.ends_with("personal"));
}

#[test]
fn resolve_target_route_overrides_pass_through_unset_fields() {
    let r = ShokaConfig {
        global: GlobalConfig {
            root: Some("/global".into()),
            layout: "{{ root }}/L".into(),
            ..Default::default()
        },
        routes: vec![Route {
            pattern: "host:github.com".into(),
            root: Some("/gh".into()),
            layout: None,
            default_vcs: Some(VcsDefault::Jj),
            default_protocol: None,
        }],
        ..Default::default()
    }
    .resolve(None, None)
    .expect("resolve");
    let t = r.resolve_target("github.com/foo/bar");
    assert!(t.root.ends_with("gh"));
    assert_eq!(t.layout, "{{ root }}/L");
    assert_eq!(t.default_vcs, VcsDefault::Jj);
    assert_eq!(t.default_protocol, Protocol::Https);
}

#[test]
fn resolve_target_profile_root_beats_routes() {
    let cfg = ShokaConfig {
        global: GlobalConfig {
            root: Some("/global".into()),
            ..Default::default()
        },
        routes: vec![route("host:github.com", "/routed")],
        profiles: vec![(
            "work".into(),
            ProfileConfig {
                root: Some("/work".into()),
                ..Default::default()
            },
        )],
    };
    let r = cfg.resolve(Some("work"), None).expect("resolve");
    assert!(r.profile_provided_root);
    let t = r.resolve_target("github.com/foo/bar");
    assert!(
        t.matched_route.is_none(),
        "profile.root should skip route matching, got {:?}",
        t.matched_route
    );
    assert!(t.root.ends_with("work"));
}

#[test]
fn resolve_target_routes_run_when_profile_lacks_root() {
    let cfg = ShokaConfig {
        global: GlobalConfig {
            root: Some("/global".into()),
            ..Default::default()
        },
        routes: vec![route("host:github.com", "/routed")],
        profiles: vec![(
            "vcs-only".into(),
            ProfileConfig {
                default_vcs: Some(VcsDefault::Jj),
                ..Default::default()
            },
        )],
    };
    let r = cfg.resolve(Some("vcs-only"), None).expect("resolve");
    assert!(!r.profile_provided_root);
    let t = r.resolve_target("github.com/foo/bar");
    assert_eq!(t.matched_route, Some(0));
    assert!(t.root.ends_with("routed"));
    assert_eq!(
        t.default_vcs,
        VcsDefault::Auto,
        "profile vcs should not leak into routes when profile.root isn't pinned"
    );
}

#[test]
fn resolve_target_no_match_uses_raw_global_not_profile_overlay() {
    let cfg = ShokaConfig {
        global: GlobalConfig {
            root: Some("/global".into()),
            default_vcs: VcsDefault::Auto,
            ..Default::default()
        },
        routes: vec![],
        profiles: vec![(
            "vcs-only".into(),
            ProfileConfig {
                default_vcs: Some(VcsDefault::Jj),
                ..Default::default()
            },
        )],
    };
    let r = cfg.resolve(Some("vcs-only"), None).expect("resolve");
    let t = r.resolve_target("github.com/foo/bar");
    assert!(t.matched_route.is_none());
    assert!(t.root.ends_with("global"));
    assert_eq!(
        t.default_vcs,
        VcsDefault::Auto,
        "profile.default_vcs must not apply when profile didn't pin a root"
    );
}

#[test]
fn resolve_errors_on_bad_route_pattern() {
    let cfg = ShokaConfig {
        global: GlobalConfig {
            root: Some("/r".into()),
            ..Default::default()
        },
        routes: vec![Route {
            pattern: "not-a-valid-pattern".into(),
            root: None,
            layout: None,
            default_vcs: None,
            default_protocol: None,
        }],
        ..Default::default()
    };
    let err = cfg.resolve(None, None).unwrap_err();
    let msg = err.message();
    assert!(
        msg.contains("routes[0]") && msg.contains("unknown route pattern"),
        "error should locate the bad pattern: {msg}"
    );
}

#[test]
fn routes_of_a_config_decide_in_order() {
    let mut gitlab = route("host:gitlab.com", "/gitlab");
    gitlab.default_protocol = Some(Protocol::Ssh);
    let r = resolved_with(vec![route("host:github.com/mycompany", "/work"), gitlab]);

    let t1 = r.resolve_target("github.com/mycompany/internal-tool");
    assert_eq!(t1.matched_route, Some(0));
    assert!(t1.root.ends_with("work"));

    let t2 = r.resolve_target("gitlab.com/anyone/anything");
    assert_eq!(t2.matched_route, Some(1));
    assert_eq!(t2.default_protocol, Protocol::Ssh);

    let t3 = r.resolve_target("github.com/other/repo");
    assert!(t3.matched_route.is_none());
}

#[test]
fn profile_overrides_global_settings() {
    let cfg = ShokaConfig {
        global: GlobalConfig {
            root: Some("/personal".into()),
            default_profile: Some("work".into()),
            ..Default::default()
        },
        profiles: vec![(
            "work".into(),
            ProfileConfig {
                root: Some("/work".into()),
                exec_concurrency: Some(32),
                ..Default::default()
            },
        )],
        ..Default::default()
    };
    let resolved = cfg.resolve(None, None).expect("resolve");
    assert_eq!(resolved.active_profile.as_deref(), Some("work"));
    assert!(
        is_absolute(&resolved.root),
        "resolved root must be absolute, got {:?}",
        resolved.root
    );
    assert!(
        resolved.root.ends_with("work"),
        "resolved root should end with `work`, got {:?}",
        resolved.root
    );
    assert_eq!(resolved.exec_concurrency, 32);
}

#[test]
fn cli_profile_overrides_default_profile() {
    let cfg = ShokaConfig {
        global: GlobalConfig {
            default_profile: Some("personal".into()),
            ..Default::default()
        },
        profiles: vec![
            ("personal".into(), ProfileConfig::default()),
            ("work".into(), ProfileConfig::default()),
        ],
        ..Default::default()
    };
    assert_eq!(cfg.resolve_profile_name(Some("work"), None), Some("work".into()));
    assert_eq!(cfg.resolve_profile_name(None, None), Some("personal".into()));
}

#[test]
fn profile_goes_by_its_name_wherever_it_stands() {
    let profile = |name: &str| {
        let root = Some(format!("/{name}"));
        (name.to_string(), ProfileConfig { root, ..Default::default() })
    };
    for names in [["a", "b", "c"], ["c", "b", "a"]] {
        for wanted in names {
            let cfg = ShokaConfig {
                profiles: names.iter().map(|n| profile(n)).collect(),
                ..Default::default()
            };
            let resolved = cfg.resolve(Some(wanted), None).unwrap();
            assert_eq!(resolved.root, format!("/{wanted}"));
        }
    }
}

#[test]
fn environment_names_the_profile_behind_the_command_line() {
    let cfg = ShokaConfig {
        global: GlobalConfig {
            default_profile: Some("personal".into()),
            ..Default::default()
        },
        ..Default::default()
    };
    assert_eq!(cfg.resolve_profile_name(None, Some("oss")), Some("oss".into()));
    assert_eq!(
        cfg.resolve_profile_name(Some("work"), Some("oss")),
        Some("work".into())
    );
}

#[test]
fn resolve_errors_when_profile_is_undefined() {
    let cfg = ShokaConfig {
        global: GlobalConfig {
            root: Some("/r".into()),
            ..Default::default()
        },
        ..Default::default()
    };
    let err = cfg.resolve(Some("ghost"), None).unwrap_err();
    assert!(
        err.message().contains("ghost"),
        "error should mention the missing profile name: {}",
        err.message()
    );
}

#[test]
fn resolve_errors_when_root_is_unset() {
    let cfg = ShokaConfig::default();
    let err = cfg.resolve(None, None).unwrap_err();
    assert!(
        err.message().contains("root"),
        "error should mention the missing root: {}",
        err.message()
    );
}

#[test]
fn cd_page_size_floors_at_one() {
    let with = |cd_page_size: usize| {
        ShokaConfig {
            global: GlobalConfig {
                root: Some("/r".into()),
                ui: UiConfig {
                    cd_page_size,
                    ..Default::default()
                },
                ..Default::default()
            },
            ..Default::default()
        }
        .resolve(None, None)
        .expect("resolve")
        .ui
        .cd_page_size
    };
    assert_eq!(with(30), 30);
    assert_eq!(with(0), 1);
}

#[test]
fn sizes_of_a_resolved_config_are_positive() {
    let mut cfg = ShokaConfig::default();
    cfg.global.root = Some("/r".into());
    cfg.global.exec_concurrency = 0;
    cfg.global.cache.parallel_repos = 0;
    let resolved = cfg.resolve(None, None).unwrap();
    assert_eq!(resolved.exec_concurrency, 1);
    assert_eq!(resolved.cache.parallel_repos, 1);
    assert_eq!(resolved.auto_update, AutoUpdateMode::Off);
}

#[test]
fn cd_page_size_defaults_to_fifteen() {
    assert_eq!(UiConfig::default().cd_page_size, 15);
}

#[test]
fn expand_home_handles_leading_tilde() {
    let p = expand_home("~/src/repos");
    assert!(
        is_absolute(&p),
        "expected ~ expansion to produce an absolute path, got {p:?}"
    );
    assert!(p.contains("src"));
}

#[test]
fn expand_home_keeps_absolute_inputs_as_they_are() {
    let expanded = expand_home("/var/tmp");
    assert!(is_absolute(&expanded), "absolute input must stay absolute, got {expanded:?}");
    assert_eq!(expanded, "/var/tmp");
}

#[test]
fn expand_home_makes_relative_input_absolute() {
    let expanded = expand_home("relative/repos");
    assert!(
        is_absolute(&expanded),
        "relative input should be absolutised, got {expanded:?}"
    );
    assert!(
        expanded.ends_with("relative/repos") || expanded.ends_with("relative\\repos"),
        "absolutised path should still end with the original tail, got {expanded:?}"
    );
}

#[test]
fn expand_home_bare_tilde_yields_home() {
    let p = expand_home("~");
    assert!(is_absolute(&p), "bare ~ should expand to home, got {p:?}");
}

#[test]
fn expand_home_does_not_touch_tilde_user_syntax() {
    let p1 = expand_home("~foo");
    assert!(is_absolute(&p1), "result should be absolute, got {p1:?}");
    assert!(
        p1.contains("~foo"),
        "~foo literal should be preserved in the result, got {p1:?}"
    );
    let p2 = expand_home("~bar/baz");
    assert!(is_absolute(&p2), "result should be absolute, got {p2:?}");
    assert!(
        p2.contains("~bar"),
        "~bar literal should be preserved, got {p2:?}"
    );
}

#[test]
fn tilde_expands_to_the_home_directory() {
    assert_eq!(expand_tilde("~", Some("/home/u")), "/home/u");
    assert_eq!(expand_tilde("~/src", Some("/home/u")), "/home/u/src");
    assert_eq!(expand_tilde("~user/src", Some("/home/u")), "~user/src");
    assert_eq!(expand_tilde("~/src", None), "~/src");
    assert_eq!(expand_tilde("/abs", Some("/home/u")), "/abs");
}

#[test]
fn starter_config_is_written_where_there_is_none() {
    let paths = ShokaPaths::rooted_at("/r/nested");
    let plan = write_starter(&paths, false).expect("write_starter on fresh path");
    assert_eq!(plan.target, paths.config_file());
    assert_eq!(plan.dir.as_deref(), Some("/r/nested"));
    assert!(
        plan.body.contains("[global]"),
        "starter should contain [global] section, got: {}",
        plan.body
    );
    assert!(
        plan.body.contains("root ="),
        "starter should set root = ..., got: {}",
        plan.body
    );
    assert_eq!(plan.body, STARTER_CONFIG);
}

#[test]
fn starter_config_is_never_written_over_another() {
    let paths = ShokaPaths::rooted_at("/r");
    let err = write_starter(&paths, true).expect_err("write_starter must refuse overwrite");
    assert!(
        err.message().contains("already exists"),
        "error should mention existing file: {}",
        err.message()
    );
}

fn found(path: &str) -> FoundFile {
    FoundFile {
        path: path.to_string(),
        canonical: Some(path.to_string()),
    }
}

#[test]
fn named_config_displaces_the_default_one_beside_it() {
    let files = files_to_load(
        &vec![found("/c/config.toml"), found("/c/config.local.toml")],
        "/c/staging.toml",
        true,
        Some("/c/staging.toml"),
    );
    assert_eq!(files, vec!["/c/staging.toml", "/c/config.local.toml"]);
}

#[test]
fn canonical_config_is_loaded_once() {
    let files = files_to_load(
        &vec![found("/c/config.toml"), found("/c/config.local.toml")],
        "/c/config.toml",
        true,
        Some("/c/config.toml"),
    );
    assert_eq!(files, vec!["/c/config.toml", "/c/config.local.toml"]);
}

#[test]
fn names_of_settings() {
    assert_eq!(vcs_str(VcsDefault::Auto), "auto");
    assert_eq!(vcs_str(VcsDefault::Git), "git");
    assert_eq!(vcs_str(VcsDefault::Jj), "jj");
    assert_eq!(protocol_str(Protocol::Https), "https");
    assert_eq!(protocol_str(Protocol::Ssh), "ssh");
}

#[test]
fn layout_is_rendered_with_the_fields_of_the_repository() {
    let mut cfg = ShokaConfig::default();
    cfg.global.root = Some("/data".into());
    cfg.global.layout =
        "{{ root }}/{{ vcs }}/{{ protocol }}/{{ host }}-{{ owner }}-{{ name }}{{ profile }}".into();
    let resolved = cfg.resolve(None, None).unwrap();
    let path = resolved
        .clone_path_for(&Repo::new("github.com", "u", "n"))
        .unwrap();
    assert_eq!(path, "/data/auto/https/github.com-u-ndefault");
}

#[test]
fn pinned_repository_lives_where_it_is_pinned() {
    let resolved = resolved_with(vec![]);
    assert_eq!(resolved.layout, DEFAULT_LAYOUT);
    let repo = Repo::new("github.com", "u", "n").with_path("/elsewhere/n".to_string());
    assert_eq!(resolved.clone_path_for(&repo).unwrap(), "/elsewhere/n");
}

#[test]
fn layout_that_does_not_render_is_refused() {
    let mut cfg = ShokaConfig::default();
    cfg.global.root = Some("/data".into());
    cfg.global.layout = "{{ root".into();
    let resolved = cfg.resolve(None, None).unwrap();
    let repo = Repo::new("github.com", "u", "n");
    match resolved.clone_path_for(&repo) {
        Err(ConfigError::Layout { layout, slug, .. }) => {
            assert_eq!(layout, "{{ root");
            assert_eq!(slug, "github.com/u/n");
        }
        other => panic!("expected a refusal, got {other:?}"),
    }
}

#[test]
fn spacing_in_a_hole_makes_no_difference() {
    let mut cfg = ShokaConfig::default();
    cfg.global.root = Some("/data".into());
    cfg.global.layout = "{ {{root}}/{{\t\n host}}-{{owner\r\u{c} }}{a {{ name}}}".into();
    let resolved = cfg.resolve(None, None).unwrap();
    let repo = Repo::new("github.com", "u", "n");
    assert_eq!(
        resolved.clone_path_for(&repo).unwrap(),
        "{ /data/github.com-u{a n}"
    );
}

#[test]
fn hole_with_a_name_of_no_field_is_refused() {
    for layout in [
        "{{nope}}",
        "{{ root }}/{{ not }}",
        "{{ loop }}",
        "{{ self }}x",
        "{{ env }}",
        "{{ rooted }}",
        "{{ Root }}{% if false %}",
        "{{ _ }}{{ true }}",
        "a{{ {% if root %}",
        "{{ 'a' ~ root",
    ] {
        let mut cfg = ShokaConfig::default();
        cfg.global.root = Some("/data".into());
        cfg.global.layout = layout.into();
        let resolved = cfg.resolve(None, None).unwrap();
        let path = resolved.clone_path_for(&Repo::new("github.com", "u", "n"));
        assert!(matches!(path, Err(ConfigError::Layout { .. })), "{layout}");
    }
}

#[test]
fn starter_content_is_loadable() {
    let rendered = teravars::Engine::new()
        .render_toml(STARTER_CONFIG, &teravars::Context::new())
        .expect("render starter");
    let table: toml::Table = toml::from_str(&rendered).expect("parse starter");
    assert_eq!(table.len(), 1);
    let global = table["global"].as_table().expect("[global]");
    assert_eq!(global.len(), 1);
    let cfg = ShokaConfig {
        global: GlobalConfig {
            root: global["root"].as_str().map(str::to_owned),
            ..Default::default()
        },
        ..Default::default()
    };
    assert_eq!(cfg.global.root.as_deref(), Some("~/src"));
    assert_eq!(cfg.global.default_vcs, VcsDefault::Auto);
    assert_eq!(cfg.global.default_host, "github.com");
}
