//! Captured local state of a repository.
use vstd::prelude::*;
use vstd::string::*;

use crate::text::{clone_opt, opt_str, opt_text, same_text};

verus! {

/// Local git state of one checkout.
#[derive(Debug, PartialEq, Eq)]
pub struct GitStatusSnapshot {
    /// Short name of HEAD; `HEAD` when it is detached, absent when it cannot
    /// be read.
    pub branch: Option<String>,
    /// The working tree differs from HEAD.
    pub dirty: bool,
    /// Commits that HEAD has and its upstream has not.
    pub ahead: Option<usize>,
    /// Commits that the upstream has and HEAD has not.
    pub behind: Option<usize>,
}

/// The contents of a [`GitStatusSnapshot`].
#[verifier::ext_equal]
pub struct GitStatusView {
    pub branch: Option<Seq<char>>,
    pub dirty: bool,
    pub ahead: Option<usize>,
    pub behind: Option<usize>,
}

impl View for GitStatusSnapshot {
    type V = GitStatusView;

    open spec fn view(&self) -> GitStatusView {
        GitStatusView {
            branch: opt_text(self.branch),
            dirty: self.dirty,
            ahead: self.ahead,
            behind: self.behind,
        }
    }
}

impl Clone for GitStatusSnapshot {
    fn clone(&self) -> (r: Self)
        ensures
            r == *self,
    {
        GitStatusSnapshot {
            branch: clone_opt(&self.branch),
            dirty: self.dirty,
            ahead: self.ahead,
            behind: self.behind,
        }
    }
}

/// What reading HEAD gave.
pub enum HeadState {
    /// HEAD could not be read.
    Unreadable,
    /// HEAD is on a branch that has no commit yet.
    Unborn,
    /// HEAD is on the branch of this short name.
    On(String),
    /// HEAD names a commit directly.
    Detached,
}

/// The branch shown for a HEAD.
pub open spec fn branch_shown(head: HeadState) -> Option<Seq<char>> {
    match head {
        HeadState::Unreadable => None,
        HeadState::Unborn => None,
        HeadState::On(name) => Some(name@),
        HeadState::Detached => Some("HEAD"@),
    }
}

/// The branch shown for a HEAD: its short name, or `HEAD` when detached. None
/// is shown before the first commit.
pub fn head_branch(head: HeadState) -> (r: Option<String>)
    ensures
        opt_text(r) == branch_shown(head),
{
    match head {
        HeadState::Unreadable => None,
        HeadState::Unborn => None,
        HeadState::On(name) => Some(name),
        HeadState::Detached => Some("HEAD".to_owned()),
    }
}

/// The upstream reference that a branch is compared with; none without a
/// branch, or with a detached HEAD.
pub fn upstream_ref(branch: Option<&str>) -> (r: Option<String>)
    ensures
        opt_text(r) == (match opt_str(branch) {
            None => None,
            Some(b) => if b == "HEAD"@ {
                None
            } else {
                Some("refs/remotes/origin/"@ + b)
            },
        }),
{
    match branch {
        None => None,
        Some(b) => {
            if same_text(b, "HEAD") {
                None
            } else {
                Some("refs/remotes/origin/".to_owned().concat(b))
            }
        },
    }
}

/// What comparing HEAD with its upstream gave.
pub enum Divergence {
    /// There is no upstream to compare with, or a side could not be read.
    Unknown,
    /// Both name the same commit.
    Same,
    /// The number of commits that only HEAD has, and that only the upstream
    /// has, each where the walk over the history succeeded.
    Counted { ahead: Option<usize>, behind: Option<usize> },
}

/// The two counts: both known or neither.
pub open spec fn counts_of(d: Divergence) -> (Option<usize>, Option<usize>) {
    match d {
        Divergence::Unknown => (None, None),
        Divergence::Same => (Some(0), Some(0)),
        Divergence::Counted { ahead: Some(a), behind: Some(b) } => (Some(a), Some(b)),
        Divergence::Counted { .. } => (None, None),
    }
}

/// The two counts: both known or neither.
pub fn ahead_behind(d: Divergence) -> (r: (Option<usize>, Option<usize>))
    ensures
        r == counts_of(d),
        r.0 is Some == r.1 is Some,
{
    match d {
        Divergence::Unknown => (None, None),
        Divergence::Same => (Some(0), Some(0)),
        Divergence::Counted { ahead, behind } => match (ahead, behind) {
            (Some(a), Some(b)) => (Some(a), Some(b)),
            _ => (None, None),
        },
    }
}

/// Whether a working tree counts as changed, given what comparing it with HEAD
/// told: one that could not be compared counts as unchanged.
pub fn is_dirty(told: Option<bool>) -> (r: bool)
    ensures
        r == (told == Some(true)),
{
    match told {
        Some(changed) => changed,
        None => false,
    }
}

/// The snapshot made of what was read.
pub fn capture(head: HeadState, told: Option<bool>, divergence: Divergence) -> (r: GitStatusSnapshot)
    ensures
        r@ == (GitStatusView {
            branch: branch_shown(head),
            dirty: told == Some(true),
            ahead: counts_of(divergence).0,
            behind: counts_of(divergence).1,
        }),
{
    let branch = head_branch(head);
    let dirty = is_dirty(told);
    let (ahead, behind) = ahead_behind(divergence);
    GitStatusSnapshot { branch, dirty, ahead, behind }
}

/// A branch is shown exactly where HEAD names one or a commit: the branch's own name,
/// or `HEAD`, which is no name of a branch with an upstream.
pub proof fn law_branch_shown(head: HeadState)
    ensures
        branch_shown(head) is None == (head is Unreadable || head is Unborn),
        head matches HeadState::On(name) ==> branch_shown(head) == Some(name@),
        head is Detached ==> branch_shown(head) == Some(seq!['H', 'E', 'A', 'D']),
{
    reveal_strlit("HEAD");
    assert("HEAD"@ =~= seq!['H', 'E', 'A', 'D']);
}

/// Both counts are known or neither is. They are known where both walks succeeded,
/// as what these counted, and where there was nothing to walk, as zero.
pub proof fn law_counts(d: Divergence)
    ensures
        counts_of(d).0 is Some == counts_of(d).1 is Some,
        d is Same ==> counts_of(d) == (Some(0usize), Some(0usize)),
        d is Unknown ==> counts_of(d).0 is None,
        d matches Divergence::Counted { ahead, behind } ==> {
            &&& ahead is Some && behind is Some ==> counts_of(d) == (ahead, behind)
            &&& ahead is None || behind is None ==> counts_of(d).0 is None
        },
{
}

} // verus!
