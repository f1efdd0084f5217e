use shoka::config::Protocol;
use shoka::remote::{
    build_url, clone_source, clone_url, looks_like_url, parse_clone_input, parse_remote_url,
    remote_of_url, CloneInputError, PartsFault, RemoteParts, RemoteUrl,
};

fn parse_url(url_str: &str) -> Result<RemoteParts, CloneInputError> {
    remote_of_url(url_str).map(|(parts, _)| parts)
}

#[test]
fn ssh_url() {
    let p = parse_url("git@github.com:foo/bar.git").unwrap();
    assert_eq!(p.host, "github.com");
    assert_eq!(p.owner, "foo");
    assert_eq!(p.name, "bar");
}

#[test]
fn https_url() {
    let p = parse_url("https://github.com/foo/bar.git").unwrap();
    assert_eq!(p.host, "github.com");
    assert_eq!(p.owner, "foo");
    assert_eq!(p.name, "bar");
}

#[test]
fn https_url_without_dot_git() {
    let p = parse_url("https://github.com/foo/bar").unwrap();
    assert_eq!(p.owner, "foo");
    assert_eq!(p.name, "bar");
}

#[test]
fn ssh_url_without_dot_git() {
    let p = parse_url("git@github.com:foo/bar").unwrap();
    assert_eq!(p.owner, "foo");
    assert_eq!(p.name, "bar");
}

#[test]
fn url_with_trailing_slash() {
    let p = parse_url("https://github.com/foo/bar/").unwrap();
    assert_eq!(p.owner, "foo");
    assert_eq!(p.name, "bar");
}

#[test]
fn trailing_slash_after_dot_git_strips_both() {
    let p = parse_url("https://github.com/foo/bar.git/").unwrap();
    assert_eq!(p.name, "bar");
}

#[test]
fn ssh_alternate_user_segment_drops_user() {
    let p = parse_url("ssh://git@gh.example.com/foo/bar.git").unwrap();
    assert_eq!(p.host, "gh.example.com");
    assert_eq!(p.owner, "foo");
    assert_eq!(p.name, "bar");
}

#[test]
fn subgroup_rejected_as_too_deep() {
    let err = parse_url("https://gitlab.com/group/sub/repo.git").unwrap_err();
    assert!(
        err.message().contains("more than two segments"),
        "expected too-deep error, got: {}",
        err.message()
    );
}

#[test]
fn clone_input_full_https_url_passes_through() {
    let (parts, url) = parse_clone_input(
        "https://github.com/foo/bar.git",
        "github.com",
        Protocol::Https,
    )
    .unwrap();
    assert_eq!(parts.host, "github.com");
    assert_eq!(parts.owner, "foo");
    assert_eq!(parts.name, "bar");
    assert_eq!(url.to_string(), "https://github.com/foo/bar.git");
}

#[test]
fn clone_input_userless_scp_ssh_passes_through() {
    let (parts, _) =
        parse_clone_input("github.com:foo/bar.git", "example.com", Protocol::Https).unwrap();
    assert_eq!(parts.host, "github.com");
    assert_eq!(parts.owner, "foo");
    assert_eq!(parts.name, "bar");
}

#[test]
fn clone_input_ssh_shorthand_passes_through() {
    let (parts, _) =
        parse_clone_input("git@github.com:foo/bar.git", "github.com", Protocol::Https).unwrap();
    assert_eq!(parts.host, "github.com");
    assert_eq!(parts.owner, "foo");
    assert_eq!(parts.name, "bar");
}

#[test]
fn clone_input_owner_name_uses_default_host_https() {
    let (parts, url) = parse_clone_input("foo/bar", "github.com", Protocol::Https).unwrap();
    assert_eq!(parts.host, "github.com");
    assert_eq!(parts.owner, "foo");
    assert_eq!(parts.name, "bar");
    assert_eq!(url.to_string(), "https://github.com/foo/bar.git");
}

#[test]
fn clone_input_owner_name_uses_default_host_ssh() {
    let (parts, url) = parse_clone_input("foo/bar", "github.com", Protocol::Ssh).unwrap();
    assert_eq!(parts.host, "github.com");
    assert_eq!(parts.owner, "foo");
    assert_eq!(parts.name, "bar");
    assert_eq!(url, "git@github.com:foo/bar.git");
}

#[test]
fn clone_input_host_owner_name_overrides_default_host() {
    let (parts, _) =
        parse_clone_input("gitlab.com/group/proj", "github.com", Protocol::Https).unwrap();
    assert_eq!(parts.host, "gitlab.com");
    assert_eq!(parts.owner, "group");
    assert_eq!(parts.name, "proj");
}

#[test]
fn clone_input_empty_errors() {
    let err = parse_clone_input("   ", "github.com", Protocol::Https).unwrap_err();
    assert!(
        err.message().contains("empty"),
        "expected empty-input error, got: {}",
        err.message()
    );
}

#[test]
fn clone_input_single_token_errors() {
    let err = parse_clone_input("justaname", "github.com", Protocol::Https).unwrap_err();
    assert!(
        err.message().contains("neither a URL"),
        "expected shape error, got: {}",
        err.message()
    );
}

#[test]
fn clone_input_four_segments_errors() {
    let err = parse_clone_input("a/b/c/d", "github.com", Protocol::Https).unwrap_err();
    assert!(
        err.message().contains("neither a URL"),
        "expected shape error, got: {}",
        err.message()
    );
}

#[test]
fn url_that_does_not_parse_is_an_error() {
    match parse_clone_input("https://[::1/foo/bar", "github.com", Protocol::Https) {
        Err(CloneInputError::Unparsed { url, .. }) => assert_eq!(url, "https://[::1/foo/bar"),
        other => panic!("expected a parse error, got {other:?}"),
    }
}

#[test]
fn urls_are_built_per_protocol() {
    assert_eq!(
        build_url("h.io", "o", "n", Protocol::Https),
        "https://h.io/o/n.git"
    );
    assert_eq!(build_url("h.io", "o", "n", Protocol::Ssh), "git@h.io:o/n.git");
    assert!(looks_like_url("git@h.io:o/n"));
    assert!(!looks_like_url("o/n"));
    assert_eq!(
        clone_url(" o/n ", "h.io", Protocol::Https).unwrap(),
        "https://h.io/o/n.git"
    );
}

fn remote(host: Option<&str>, path: Option<&str>) -> RemoteUrl {
    RemoteUrl {
        host: host.map(str::to_string),
        path: path.map(str::to_string),
    }
}

#[test]
fn each_url_without_a_remote_says_why() {
    let fault = |host: Option<&str>, path: Option<&str>| {
        parse_remote_url(&remote(host, path)).unwrap_err().fault
    };
    assert_eq!(fault(None, Some("/a/b")), PartsFault::NoHost);
    assert_eq!(fault(Some("h"), None), PartsFault::NotText);
    assert_eq!(fault(Some("h"), Some("/")), PartsFault::NoOwner);
    assert_eq!(fault(Some("h"), Some("/a")), PartsFault::NoName);
    assert_eq!(fault(Some("h"), Some("/a/b/c")), PartsFault::TooDeep);
}

#[test]
fn spelling_of_a_path_does_not_matter() {
    let plain = parse_remote_url(&remote(Some("h"), Some("a/b"))).unwrap();
    for spelled in ["/a/b", "a/b.git", "/a/b.git/", "/a/b/"] {
        assert_eq!(
            parse_remote_url(&remote(Some("h"), Some(spelled))).unwrap(),
            plain
        );
    }
}

#[test]
fn parsed_url_decides_the_outcome() {
    let ok = clone_source("u".to_string(), Ok(remote(Some("h"), Some("a/b")))).unwrap();
    assert_eq!(ok.0.owner, "a");
    assert_eq!(ok.1, "u");
    assert!(matches!(
        clone_source("u".to_string(), Err("bad".to_string())),
        Err(CloneInputError::Unparsed { .. })
    ));
    assert!(matches!(
        clone_source("u".to_string(), Ok(remote(None, None))),
        Err(CloneInputError::Parts { .. })
    ));
}

#[test]
fn usual_urls_name_what_they_spell() {
    for url in [
        "https://h-1.io/o_w/n.a.git",
        "https://h-1.io/o_w/n.a/?x#y",
        "ssh://git@h-1.io/o_w/n.a",
        "git@h-1.io:o_w/n.a.git",
        "h-1.io:o_w/n.a",
    ] {
        let parsed = remote_of_url(url);
        if url.contains('?') {
            assert!(matches!(parsed, Err(CloneInputError::Parts { .. })), "{url}");
        } else {
            let p = parsed.unwrap().0;
            assert_eq!((p.host.as_str(), p.owner.as_str(), p.name.as_str()), ("h-1.io", "o_w", "n.a"));
        }
    }
}

#[test]
fn shorthand_names_what_it_spells() {
    for (input, protocol, name, url) in [
        ("o/n.git", Protocol::Https, "n.git", "https://h.io/o/n.git.git"),
        (" h.io/o/~n ", Protocol::Https, "~n", "https://h.io/o/~n.git"),
        ("o/n%41", Protocol::Ssh, "n%41", "git@h.io:o/n%41.git"),
        ("o/ñ?#@", Protocol::Https, "ñ?#@", "https://h.io/o/ñ?#@.git"),
    ] {
        let (p, u) = parse_clone_input(input, "h.io", protocol).unwrap();
        assert_eq!((p.host.as_str(), p.owner.as_str(), p.name.as_str()), ("h.io", "o", name));
        assert_eq!(u, url);
    }
    // An escape is read, and the case of a host is not kept.
    let (p, _) = parse_clone_input("o/n%41", "H.io", Protocol::Https).unwrap();
    assert_eq!((p.host.as_str(), p.name.as_str()), ("h.io", "nA"));
}
