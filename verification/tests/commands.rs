use shoka::cli::{
    CacheCommand, CdArgs, CloneArgs, Command, CompletionArgs, CompletionShell, InitShellArgs,
    ListArgs, NoteArgs, SelfUpdateArgs, SupportedShell, TagCommand, TuiArgs,
};
use shoka::commands::{
    auto_update_eligible, bg_refresh_eligible, dispatch, maybe_spawn_auto_update, unavailable,
};
use shoka::config::{AutoUpdateMode, ShokaConfig};
use shoka::paths::ShokaPaths;
use shoka::updater::{
    auto_update_disabled_by_env, check_interval, finalize_auto_update_check, interval_from,
    maybe_spawn_auto_update_check, run_self_update, version_text, Announcement, AutoUpdateReply,
    AutoUpdateStep, Interval,
};

fn cache_refresh() -> Command {
    Command::Cache(CacheCommand::Refresh {
        force: false,
        tags: vec![],
        background: false,
    })
}

#[test]
fn bg_refresh_eligible_excludes_cache_and_friends() {
    assert!(!bg_refresh_eligible(&cache_refresh()));
    assert!(!bg_refresh_eligible(&Command::Cache(CacheCommand::Show)));
    assert!(!bg_refresh_eligible(&Command::Cache(CacheCommand::Clear)));
    assert!(!bg_refresh_eligible(&Command::Completion(CompletionArgs {
        shell: CompletionShell::Bash
    })));
    assert!(!bg_refresh_eligible(&Command::InitShell(InitShellArgs {
        shell: SupportedShell::Bash,
        name: "s".into(),
    })));
    assert!(!bg_refresh_eligible(&Command::Tui(TuiArgs { tags: vec![] })));
    assert!(!bg_refresh_eligible(&Command::SelfUpdate(SelfUpdateArgs {
        yes: false,
        check: false,
    })));
}

#[test]
fn bg_refresh_eligible_includes_user_facing_commands() {
    assert!(bg_refresh_eligible(&Command::Clone(CloneArgs { url: None })));
    assert!(bg_refresh_eligible(&Command::List(ListArgs {
        tags: vec![],
        has_agents: false,
    })));
    assert!(bg_refresh_eligible(&Command::Cd(CdArgs {
        repo: None,
        tags: vec![],
    })));
    assert!(bg_refresh_eligible(&Command::Doctor));
}

#[test]
fn auto_update_eligible_excludes_self_update_and_script_generators() {
    assert!(!auto_update_eligible(&Command::SelfUpdate(SelfUpdateArgs {
        yes: false,
        check: false,
    })));
    assert!(!auto_update_eligible(&Command::Completion(CompletionArgs {
        shell: CompletionShell::Bash
    })));
    assert!(!auto_update_eligible(&Command::InitShell(InitShellArgs {
        shell: SupportedShell::Bash,
        name: "s".into(),
    })));
    assert!(!auto_update_eligible(&Command::Tui(TuiArgs { tags: vec![] })));
}

#[test]
fn auto_update_eligible_includes_fast_and_long_commands() {
    assert!(auto_update_eligible(&Command::Cd(CdArgs {
        repo: None,
        tags: vec![],
    })));
    assert!(auto_update_eligible(&Command::Clone(CloneArgs { url: None })));
    assert!(auto_update_eligible(&Command::List(ListArgs {
        tags: vec![],
        has_agents: false,
    })));
    assert!(auto_update_eligible(&cache_refresh()));
    assert!(auto_update_eligible(&Command::Doctor));
}

#[test]
fn no_command_means_the_dashboard() {
    let d = dispatch(None);
    assert!(matches!(d.command, Command::Tui(ref a) if a.tags.is_empty()));
    assert!(!d.bg_refresh);
    assert!(!d.auto_update);
    let d = dispatch(Some(Command::Doctor));
    assert!(matches!(d.command, Command::Doctor));
    assert!(d.bg_refresh && d.auto_update);
}

#[test]
fn commands_that_do_nothing_so_far_say_so() {
    let add = Command::Tag(TagCommand::Add { repo: None, tags: vec![] });
    assert_eq!(unavailable(&add), Some("`shoka tag add` is not implemented yet"));
    let note = Command::Note(NoteArgs { repo: None, text: None, clear: false });
    assert_eq!(unavailable(&note), Some("`shoka note` is not implemented yet"));
    assert_eq!(unavailable(&Command::Doctor), None);
}

#[test]
fn kill_switch_turns_checks_off() {
    for on in ["1", "true", "yes", " x "] {
        assert!(auto_update_disabled_by_env(Some(on)), "{on:?}");
    }
    for off in ["", "  ", "0", "false", "FALSE", " 0 "] {
        assert!(!auto_update_disabled_by_env(Some(off)), "{off:?}");
    }
    assert!(!auto_update_disabled_by_env(None));
}

#[test]
fn background_check_is_set_up_from_the_configuration() {
    let paths = ShokaPaths::rooted_at("/r");
    let mut cfg = ShokaConfig::default();
    cfg.global.root = Some("/r".into());
    cfg.global.auto_update = AutoUpdateMode::Notify;
    cfg.global.update_check_interval = Some("2h".into());
    let resolved = cfg.resolve(None, None).unwrap();
    let setup = maybe_spawn_auto_update(None, Some(&resolved), &paths).unwrap();
    assert_eq!(setup.mode, AutoUpdateMode::Notify);
    assert_eq!(setup.interval, Interval { secs: 7200, nanos: 0 });
    assert_eq!(setup.state_path, "/r/last_update_check.json");
    assert!(maybe_spawn_auto_update(Some("1"), Some(&resolved), &paths).is_none());
    assert!(maybe_spawn_auto_update(None, None, &paths).is_none());

    let mut off = ShokaConfig::default();
    off.global.root = Some("/r".into());
    let off = off.resolve(None, None).unwrap();
    assert!(maybe_spawn_auto_update(None, Some(&off), &paths).is_none());
}

#[test]
fn intervals_are_read_or_fall_back_to_a_day() {
    let day = Interval { secs: 86_400, nanos: 0 };
    assert_eq!(check_interval(None), day);
    assert_eq!(check_interval(Some("no interval")), day);
    assert_eq!(check_interval(Some("90m")), Interval { secs: 5400, nanos: 0 });
    assert_eq!(
        check_interval(Some("1day 6hours 500ms")),
        Interval { secs: 108_000, nanos: 500_000_000 }
    );
    assert_eq!(
        check_interval(Some("100000000000000ns")),
        Interval { secs: 100_000, nanos: 0 }
    );
    assert_eq!(
        check_interval(Some("000000000000000000000002h")),
        Interval { secs: 7200, nanos: 0 }
    );
    assert_eq!(
        check_interval(Some("1 2 . 5 0 min 3000000000000000us")),
        Interval { secs: 3_000_000_750, nanos: 0 }
    );
    assert_eq!(
        check_interval(Some("18446744073709551615s 999ms")),
        Interval { secs: u64::MAX, nanos: 999_000_000 }
    );
    assert_eq!(
        check_interval(Some("18446744073709551615.5s")),
        Interval { secs: u64::MAX, nanos: 500_000_000 }
    );
    assert_eq!(check_interval(Some("18446744073709551615s 1000ms")), day);
    assert_eq!(check_interval(Some("18446744073709551616ns")), day);
    assert_eq!(check_interval(Some("1.00000000000000000000s")), day);
    assert_eq!(interval_from(Some((5, 6))), Interval { secs: 5, nanos: 6 });
    assert_eq!(interval_from(None), day);
}

#[test]
fn each_mode_starts_its_own_work() {
    let start = maybe_spawn_auto_update_check;
    assert_eq!(start(AutoUpdateMode::Off, true, true), None);
    assert_eq!(
        start(AutoUpdateMode::Notify, true, true),
        Some(AutoUpdateStep::NotifyPending)
    );
    assert_eq!(
        start(AutoUpdateMode::Notify, false, true),
        Some(AutoUpdateStep::NotifyCached)
    );
    assert_eq!(start(AutoUpdateMode::Notify, false, false), None);
    assert_eq!(
        start(AutoUpdateMode::Install, false, false),
        Some(AutoUpdateStep::Installing)
    );
}

#[test]
fn what_is_announced_in_the_end() {
    let end = finalize_auto_update_check;
    let done = |tag: &str| AutoUpdateReply::Done(Some(tag.to_string()));
    match end(AutoUpdateStep::Installing, done("v1.2.3"), false) {
        Announcement::Line(line) => assert_eq!(
            line,
            "✓ shoka 1.2.3 installed in the background — restart to apply."
        ),
        other => panic!("expected a line, got {other:?}"),
    }
    assert!(matches!(
        end(AutoUpdateStep::NotifyPending, done("v2"), false),
        Announcement::FreshBanner
    ));
    assert!(matches!(
        end(AutoUpdateStep::NotifyPending, AutoUpdateReply::Unfinished, true),
        Announcement::CachedBanner
    ));
    assert!(matches!(
        end(AutoUpdateStep::Installing, AutoUpdateReply::Unfinished, true),
        Announcement::Silent
    ));
    assert_eq!(version_text("v1.0"), "1.0");
    assert_eq!(version_text("1.0"), "1.0");
}

#[test]
fn nobody_is_asked_without_a_terminal() {
    assert!(run_self_update(false, true, false).non_interactive);
    let plan = run_self_update(true, false, true);
    assert!(plan.yes && !plan.check_only && !plan.non_interactive);
}

#[test]
fn every_unit_of_an_interval_is_known() {
    // What is left of 2^64 - 1 seconds goes into the second span of time.
    for (unit, secs) in [
        ("nanos nsec ns usec us µs millis msec ms", 0),
        ("seconds second secs sec s", 1),
        ("minutes minute min mins m", 60),
        ("hours hour hr hrs h", 3_600),
        ("days day d", 86_400),
        ("weeks week wk wks w", 604_800),
        ("months month M", 2_630_016),
        ("years year yr yrs y", 31_557_600),
    ] {
        for name in unit.split(' ') {
            if secs == 0 {
                assert_eq!(check_interval(Some(&format!("0{name}"))).secs, 0, "{name}");
                continue;
            }
            let most = u64::MAX / secs;
            let left = u64::MAX - most * secs;
            let at = |rest: &str| check_interval(Some(&format!("{most}{name} {left}s {rest}")));
            assert_eq!(at("999ms").secs, u64::MAX, "{name}");
            assert_eq!(at("1000ms").secs, 86_400, "{name}");
        }
    }
}
