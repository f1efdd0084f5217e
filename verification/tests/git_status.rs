use shoka::git_status::{
    ahead_behind, capture, head_branch, is_dirty, upstream_ref, Divergence, HeadState,
};

#[test]
fn branch_of_head() {
    assert_eq!(head_branch(HeadState::On("main".into())).as_deref(), Some("main"));
    assert_eq!(head_branch(HeadState::Detached).as_deref(), Some("HEAD"));
    assert_eq!(head_branch(HeadState::Unreadable), None);
    assert_eq!(head_branch(HeadState::Unborn), None);
}

#[test]
fn upstream_of_a_branch() {
    assert_eq!(
        upstream_ref(Some("main")).as_deref(),
        Some("refs/remotes/origin/main")
    );
    assert_eq!(upstream_ref(Some("HEAD")), None);
    assert_eq!(upstream_ref(None), None);
}

#[test]
fn counts_are_known_together_or_not_at_all() {
    assert_eq!(ahead_behind(Divergence::Unknown), (None, None));
    assert_eq!(ahead_behind(Divergence::Same), (Some(0), Some(0)));
    let counted = |ahead, behind| ahead_behind(Divergence::Counted { ahead, behind });
    assert_eq!(counted(Some(2), Some(3)), (Some(2), Some(3)));
    assert_eq!(counted(Some(2), None), (None, None));
}

#[test]
fn snapshot_puts_what_was_found_together() {
    let snap = capture(HeadState::On("main".into()), Some(true), Divergence::Same);
    assert_eq!(snap.branch.as_deref(), Some("main"));
    assert!(snap.dirty);
    assert_eq!(snap.ahead, Some(0));
    assert_eq!(snap.behind, Some(0));
}

#[test]
fn a_tree_that_cannot_be_compared_counts_as_unchanged() {
    assert!(is_dirty(Some(true)));
    assert!(!is_dirty(Some(false)));
    assert!(!is_dirty(None));
    let snap = capture(HeadState::Unborn, None, Divergence::Unknown);
    assert_eq!(snap.branch, None);
    assert!(!snap.dirty);
    assert_eq!((snap.ahead, snap.behind), (None, None));
}
