use shoka::commands::new::{
    answered_name, default_owner, gh_repo_create, kata_failed_line, kata_init, name_prompt_help,
    parse_spec, resolve_owner_name, resolve_preset, validate_segment, LoginLookup, NameStep,
    OwnerError, SegmentFault, Spec,
};

#[test]
fn parse_spec_splits_owner_and_name() {
    assert_eq!(
        parse_spec("yukimemi/shoka").unwrap(),
        Spec::Full {
            owner: "yukimemi".into(),
            name: "shoka".into()
        }
    );
}

#[test]
fn parse_spec_bare_name_defers_owner() {
    assert_eq!(
        parse_spec("shoka").unwrap(),
        Spec::NameOnly {
            name: "shoka".into()
        }
    );
}

#[test]
fn parse_spec_trims_surrounding_whitespace() {
    assert_eq!(
        parse_spec("  yukimemi / shoka ").unwrap(),
        Spec::Full {
            owner: "yukimemi".into(),
            name: "shoka".into()
        }
    );
}

#[test]
fn parse_spec_rejects_empty_segments() {
    assert!(parse_spec("owner/").is_err());
    assert!(parse_spec("/name").is_err());
    assert!(parse_spec("   ").is_err());
}

#[test]
fn parse_spec_rejects_host_owner_name_triple() {
    let err = parse_spec("github.com/yukimemi/shoka").unwrap_err();
    assert!(
        err.message().contains("invalid character"),
        "expected invalid-character error, got: {}",
        err.message()
    );
}

#[test]
fn validate_segment_flags_spaces() {
    assert!(validate_segment("my repo", "name").is_err());
    assert!(validate_segment("ok-name_1.2", "name").is_ok());
}

#[test]
fn each_refused_segment_says_why() {
    let empty = validate_segment("", "owner").unwrap_err();
    assert_eq!(empty.fault, SegmentFault::Empty);
    assert_eq!(empty.message(), "owner must not be empty");
    let bad = validate_segment("a/b", "name").unwrap_err();
    assert_eq!(bad.fault, SegmentFault::BadCharacter);
    assert_eq!(
        bad.message(),
        "name `a/b` has an invalid character (no slashes or spaces)"
    );
}

#[test]
fn what_is_not_given_is_defaulted_or_asked_for() {
    assert!(matches!(resolve_owner_name(None), Ok(NameStep::AskName)));
    match resolve_owner_name(Some("me/x")) {
        Ok(NameStep::Known { owner, name }) => assert_eq!((owner.as_str(), name.as_str()), ("me", "x")),
        other => panic!("expected both, got {other:?}"),
    }
    assert!(matches!(
        resolve_owner_name(Some("x")),
        Ok(NameStep::UnderDefault { name }) if name == "x"
    ));
    assert!(resolve_owner_name(Some("a b")).is_err());
    assert_eq!(name_prompt_help("me"), "created under me/");
    assert_eq!(answered_name(" x \n").unwrap(), "x");
    assert!(answered_name("  ").is_err());
}

#[test]
fn owner_defaults_to_the_first_own_one() {
    let own = vec!["acme".to_string(), "me".to_string()];
    assert_eq!(default_owner(&own, None).unwrap(), "acme");
    assert_eq!(
        default_owner(&[], Some(LoginLookup::Login("me".into()))).unwrap(),
        "me"
    );
    assert!(matches!(
        default_owner(&[], Some(LoginLookup::NoToken)),
        Err(OwnerError::Unknown)
    ));
    assert!(matches!(
        default_owner(&[], Some(LoginLookup::NoClient("x".into()))),
        Err(OwnerError::NoClient(_))
    ));
    assert!(matches!(
        default_owner(&[], Some(LoginLookup::Failed("x".into()))),
        Err(OwnerError::Lookup(_))
    ));
}

#[test]
fn repository_is_created_with_a_readme() {
    assert_eq!(
        gh_repo_create("me/x", true, Some("a thing")),
        vec!["repo", "create", "me/x", "--private", "--add-readme", "--description", "a thing"]
    );
    assert_eq!(
        gh_repo_create("me/x", false, None),
        vec!["repo", "create", "me/x", "--public", "--add-readme"]
    );
}

#[test]
fn preset_on_the_command_line_comes_first() {
    let configured = Some("conf".to_string());
    assert_eq!(resolve_preset(true, Some("cli".into()), &configured), None);
    assert_eq!(
        resolve_preset(false, Some("cli".into()), &configured).as_deref(),
        Some("cli")
    );
    assert_eq!(resolve_preset(false, None, &configured).as_deref(), Some("conf"));
    assert_eq!(resolve_preset(false, None, &None), None);
    assert_eq!(kata_init("p", "/w/x"), vec!["init", "p", "--at", "/w/x"]);
    assert_eq!(
        kata_failed_line("boom", "p", "/w/x"),
        "kata init failed (boom) — repo is created and cloned; re-run `kata init p --at /w/x` by hand"
    );
}
