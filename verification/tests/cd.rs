use shoka::commands::cd::{
    choose_by_hint, emit_path, file_url, hex_upper, landing, osc7_sequence, percent_encode_path,
    repo_label, run, shorten_under, tilde_shorten, to_url_path, Choice, Emission, SelectError,
};
use shoka::config::{GlobalConfig, ShokaConfig};
use shoka::state::{Repo, Shelf};
use std::path::Path;

fn r(name: &str) -> Repo {
    Repo::new("github.com", "yukimemi", name)
}

fn r_owned(owner: &str, name: &str) -> Repo {
    Repo::new("github.com", owner, name)
}

fn picked<'a>(choice: Result<Choice<'a>, SelectError>) -> &'a Repo {
    match choice {
        Ok(Choice::One(repo)) => repo,
        other => panic!("expected one repository, got {other:?}"),
    }
}

#[test]
fn hint_filters_to_substring_case_insensitive() {
    let a = r("shoka");
    let b = r("renri");
    let c = r("kanade");
    let candidates: Vec<&Repo> = vec![&a, &b, &c];

    let found = picked(choose_by_hint(&candidates, "ren"));
    assert_eq!(found.name, "renri");

    let found = picked(choose_by_hint(&candidates, "RENRI"));
    assert_eq!(found.name, "renri");
}

#[test]
fn hint_with_zero_matches_errors_cleanly() {
    let a = r("shoka");
    let candidates: Vec<&Repo> = vec![&a];
    let err = choose_by_hint(&candidates, "no-such-thing").unwrap_err();
    let msg = err.message();
    assert!(
        msg.contains("no repos on the shelf match"),
        "expected no-match error, got: {msg}"
    );
}

#[test]
fn hint_substring_matches_owner_or_host() {
    let a = r_owned("rust-org", "alpha");
    let b = r_owned("other-org", "beta");
    let candidates: Vec<&Repo> = vec![&a, &b];
    let found = picked(choose_by_hint(&candidates, "rust-org"));
    assert_eq!(found.name, "alpha");
}

#[test]
fn ambiguous_hint_leaves_the_choice_to_the_user() {
    let a = r("shoka");
    let b = r("shoka-web");
    let candidates: Vec<&Repo> = vec![&a, &b];
    match choose_by_hint(&candidates, "shoka").unwrap() {
        Choice::Ask { among, .. } => assert_eq!(among.len(), 2),
        other => panic!("expected a question, got {other:?}"),
    }
}

#[test]
fn nothing_to_choose_from_is_an_error() {
    let empty = Shelf::default();
    assert!(matches!(run(&empty, &[], None), Err(SelectError::EmptyShelf(_))));
    let mut shelf = Shelf::default();
    shelf.add(r("shoka")).unwrap();
    assert!(matches!(
        run(&shelf, &["rust".to_string()], None),
        Err(SelectError::NoTagMatch(1))
    ));
    assert!(matches!(
        run(&shelf, &[], Some("zzz")),
        Err(SelectError::NoHintMatch(_))
    ));
    assert_eq!(picked(run(&shelf, &[], Some("shoka"))).name, "shoka");
}

#[test]
fn landing_needs_a_directory() {
    let repo = r("shoka");
    assert_eq!(landing(&repo, "/w/shoka".into(), true).unwrap(), "/w/shoka");
    let err = landing(&repo, "/w/shoka".into(), false).unwrap_err();
    assert!(err.message().contains("/w/shoka"), "{}", err.message());
}

#[test]
fn tilde_shorten_collapses_home_dir_prefix() {
    let home = match directories::BaseDirs::new() {
        Some(b) => b.home_dir().to_string_lossy().into_owned(),
        None => return,
    };
    assert_eq!(tilde_shorten(&home), "~");

    let nested = format!("{home}/src/github.com/yukimemi/shoka");
    let rendered = tilde_shorten(&nested);
    assert!(
        rendered.starts_with("~/src"),
        "expected `~/src…`, got {rendered:?}"
    );

    let rendered = tilde_shorten("/definitely/not/home");
    assert!(
        !rendered.starts_with('~'),
        "outside-home path must not tilde-shorten, got {rendered:?}"
    );
}

#[test]
fn paths_are_shortened_at_component_boundaries() {
    assert_eq!(shorten_under("/home/u/x", Some("/home/u")), "~/x");
    assert_eq!(shorten_under("/home/user/x", Some("/home/u")), "/home/user/x");
    assert_eq!(shorten_under("/home/u/x", None), "/home/u/x");
    assert_eq!(shorten_under("/home/u/", Some("/home/u")), "~");
    assert_eq!(shorten_under("C:/Users/u\\a\\b", Some("C:\\Users\\u")), "~\\a\\b");
    for home in ["/home/u", "/home//u/", "/", "/x"] {
        for path in ["/home/u/a//b/./c/", "//home/u//a/b/.", "/home/./u/a", "/home/u/..//a"] {
            let shown = match Path::new(path).strip_prefix(home) {
                Ok(rest) => format!("~/{}", rest.display()),
                Err(_) => path.to_string(),
            };
            assert_eq!(shorten_under(path, Some(home)), shown, "{path} under {home}");
        }
    }
}

#[test]
fn percent_encode_keeps_path_structure_and_escapes_the_rest() {
    assert_eq!(
        percent_encode_path("/home/user/a-b._~/c"),
        "/home/user/a-b._~/c"
    );
    assert_eq!(
        percent_encode_path("/C:/Program Files"),
        "/C:/Program%20Files"
    );
    assert_eq!(percent_encode_path("/雪"), "/%E9%9B%AA");
}

#[test]
fn every_other_byte_is_escaped() {
    assert_eq!(percent_encode_path("%\x1b\\"), "%25%1B%5C");
    assert_eq!(hex_upper(9), '9');
    assert_eq!(hex_upper(15), 'F');
}

#[test]
fn to_url_path_normalises_unix_and_windows_shapes() {
    assert_eq!(to_url_path("/home/u/a b"), "/home/u/a%20b");
    assert_eq!(to_url_path(r"C:\Users\a b"), "/C:/Users/a%20b");
}

#[test]
fn file_url_and_osc7_sequence_have_the_expected_envelope() {
    let url = file_url("/home/u/repo");
    assert_eq!(url, "file:///home/u/repo");
    let seq = osc7_sequence(&url);
    assert_eq!(seq, "\x1b]7;file:///home/u/repo\x1b\\");
    assert!(seq.starts_with("\x1b]7;"), "must open with OSC 7: {seq:?}");
    assert!(seq.ends_with("\x1b\\"), "must close with ST: {seq:?}");
}

#[test]
fn file_url_keeps_windows_unc_paths_well_formed() {
    assert_eq!(
        file_url(r"\\server\share\repo"),
        "file://server/share/repo"
    );
    assert_eq!(
        file_url(r"\\nas\team share\repo"),
        "file://nas/team%20share/repo"
    );
}

#[test]
fn path_goes_to_the_side_channel_where_there_is_one() {
    match emit_path("/w/x", Some("/tmp/out")) {
        Emission::ToFile { file, body, osc7 } => {
            assert_eq!(file, "/tmp/out");
            assert_eq!(body, "/w/x");
            assert_eq!(osc7, "\x1b]7;file:///w/x\x1b\\");
        }
        other => panic!("expected the side channel, got {other:?}"),
    }
    assert!(matches!(emit_path("/w/x", None), Emission::ToStdout(line) if line == "/w/x"));
    assert!(matches!(emit_path("/w/x", Some("")), Emission::ToStdout(_)));
}

#[test]
fn pinned_repositories_are_labelled_with_their_path() {
    assert_eq!(repo_label(&r("a"), Some("/home/u")), "github.com/yukimemi/a");
    let pinned = r("a").with_path("/home/u/w/a".to_string());
    assert_eq!(
        repo_label(&pinned, Some("/home/u")),
        "github.com/yukimemi/a  →  ~/w/a"
    );
}

#[test]
fn clone_path_uses_layout_so_cd_lands_where_clone_left_it() {
    let repo = r("shoka");
    let resolved = ShokaConfig {
        global: GlobalConfig {
            root: Some("/data".into()),
            layout: "{{ root }}/{{ name }}".into(),
            ..Default::default()
        },
        routes: vec![],
        profiles: vec![],
    }
    .resolve(None, None)
    .expect("resolve");
    let s = resolved.clone_path_for_one(&repo).unwrap();
    assert!(
        s.ends_with("/data/shoka"),
        "cd path should follow the configured layout, got {s:?}"
    );
}
