//! `shoka rm`: a checkout is deleted and its row dropped.
use vstd::prelude::*;
use vstd::string::*;

use crate::cli::RmArgs;
use crate::commands::cd::{
    ascii_slugs, named_by, offered, select, selected, Choice, SelectError,
};
use crate::seqs::{lemma_first_index, selects};
use crate::state::{
    Repo, RepoView, RowKey, Shelf, ShelfView, law_remove_keeps_other_rows, row_key, slug_of,
    slug_text,
};
use crate::text::{
    all_ascii, clone_opt, has, lemma_stands_at_an_end, lemma_stands_between, lemma_told_in_order,
    occurs_at, opt_as_str, opt_text, texts, trim, trimmed,
};

verus! {

/// What `rm` says of an empty shelf.
pub const RM_EMPTY: &'static str = "shelf is empty — nothing to remove";

/// The repository to remove.
pub fn choose_repo<'a>(shelf: &'a Shelf, args: &RmArgs) -> (r: Result<Choice<'a>, SelectError>)
    ensures
        selected(shelf@, texts(args.tags@), opt_text(args.repo), "remove:"@, RM_EMPTY@, r),
        args.repo is None && shelf@.rows.len() > 0 ==> offered(r) == shelf@.tagged(
            texts(args.tags@),
        ),
        args.repo is Some && all_ascii(args.repo->0@) && ascii_slugs(
            shelf@.tagged(texts(args.tags@)),
        ) ==> selects(shelf@.tagged(texts(args.tags@)), named_by(args.repo->0@), offered(r)),
{
    select(shelf, &args.tags, opt_as_str(&args.repo), "remove:", RM_EMPTY)
}

/// What happened to the working tree.
#[derive(Debug, Clone, Copy, PartialEq, Eq, Structural)]
pub enum Outcome {
    /// It was deleted.
    Deleted,
    /// It was gone already.
    AlreadyGone,
    /// It was left in place on purpose.
    KeptFiles,
}

/// The identity of the repository to remove.
#[derive(Debug)]
pub struct RepoId {
    pub host: String,
    pub owner: String,
    pub name: String,
    pub path: Option<String>,
}

impl RepoId {
    /// The identity as a key.
    pub open spec fn key(self) -> RowKey {
        row_key(self.host@, self.owner@, self.name@, opt_text(self.path))
    }

    /// A repository's identity.
    pub fn of(repo: &Repo) -> (r: Self)
        ensures
            r.key() == repo@.key(),
            r.slug_view() == repo@.slug(),
    {
        RepoId {
            host: repo.host.clone(),
            owner: repo.owner.clone(),
            name: repo.name.clone(),
            path: clone_opt(&repo.path),
        }
    }

    /// `host/owner/name`.
    pub open spec fn slug_view(self) -> Seq<char> {
        slug_of(self.host@, self.owner@, self.name@)
    }

    /// `host/owner/name`.
    pub fn slug(&self) -> (r: String)
        ensures
            r@ == self.slug_view(),
    {
        slug_text(self.host.as_str(), self.owner.as_str(), self.name.as_str())
    }
}

/// Why nothing was removed.
#[derive(Debug)]
pub enum RmError {
    /// The row is not on the shelf any more; holds the slug.
    Vanished(String),
    /// The working tree has uncommitted changes, and nobody was there to ask;
    /// holds the slug.
    Dirty(String),
    /// The working tree's path cannot be looked at.
    Inspect { path: String, cause: String },
}

impl RmError {
    /// The text of the message.
    pub open spec fn text(self) -> Seq<char> {
        match self {
            RmError::Vanished(slug) => "internal: "@ + slug@
                + " vanished from the shelf before removal"@,
            RmError::Dirty(slug) => slug@
                + " has uncommitted changes — commit or stash them, or re-run with --force to delete anyway"@,
            RmError::Inspect { path, cause } => "inspecting clone path "@ + path@ + ": "@ + cause@,
        }
    }

    /// The message shown to the user.
    pub fn message(&self) -> (r: String)
        ensures
            r@ == self.text(),
    {
        match self {
            RmError::Vanished(slug) => "internal: ".to_owned().concat(slug.as_str()).concat(
                " vanished from the shelf before removal",
            ),
            RmError::Dirty(slug) => slug.clone().concat(
                " has uncommitted changes — commit or stash them, or re-run with --force to delete anyway",
            ),
            RmError::Inspect { path, cause } => "inspecting clone path ".to_owned().concat(
                path.as_str(),
            ).concat(": ").concat(cause.as_str()),
        }
    }
}

/// Whether the working tree has uncommitted changes.
#[derive(Debug)]
pub enum Cleanliness {
    Clean,
    Dirty,
    /// It could not be told, for this reason.
    Unknown(String),
}

/// What asking jj for the uncommitted changes gave.
#[derive(Debug)]
pub enum JjAnswer {
    /// It answered with this output.
    Answered(Vec<u8>),
    /// It exited with a failure: its status, and its error output.
    Failed { status: String, stderr: String },
    /// There is no jj.
    NotFound,
    /// It could not be started.
    NotStarted(String),
}

/// What the probe of a working tree found.
#[derive(Debug)]
pub enum Probe {
    /// There is no sign of a version control system.
    NoVcs,
    /// Git's view of it, or why there is none.
    Git(Result<bool, String>),
    /// jj's view of it.
    Jj(JjAnswer),
}

/// An ASCII white-space byte.
pub open spec fn blank(b: u8) -> bool {
    b == 32 || b == 9 || b == 10 || b == 12 || b == 13
}

/// Whether some byte is not white space.
pub open spec fn has_content(bytes: Seq<u8>) -> bool {
    exists|i: int| 0 <= i < bytes.len() && !blank(#[trigger] bytes[i])
}

/// Whether some byte is not white space.
fn any_content(bytes: &[u8]) -> (r: bool)
    ensures
        r == has_content(bytes@),
{
    let mut i: usize = 0;
    while i < bytes.len()
        invariant
            i <= bytes@.len(),
            forall|k: int| 0 <= k < i ==> blank(#[trigger] bytes@[k]),
        decreases bytes@.len() - i,
    {
        let b: u8 = bytes[i];
        if !(b == 32 || b == 9 || b == 10 || b == 12 || b == 13) {
            assert(!blank(bytes@[i as int]));
            return true;
        }
        i = i + 1;
    }
    false
}

/// What jj's answer tells of the working tree: any output at all is a change.
pub open spec fn jj_says(answer: JjAnswer, r: Cleanliness) -> bool {
    match answer {
        JjAnswer::Answered(out) => if has_content(out@) {
            r is Dirty
        } else {
            r is Clean
        },
        JjAnswer::Failed { status, stderr } => r matches Cleanliness::Unknown(why) && why@
            == "`jj diff` exited "@ + status@ + ": "@ + trimmed(stderr@),
        JjAnswer::NotFound => r matches Cleanliness::Unknown(why) && why@
            == "jj not found on PATH"@,
        JjAnswer::NotStarted(e) => r matches Cleanliness::Unknown(why) && why@
            == "spawning `jj diff` failed: "@ + e@,
    }
}

/// Whether the working tree has uncommitted changes, by jj's account.
pub fn jj_cleanliness(answer: JjAnswer) -> (r: Cleanliness)
    ensures
        jj_says(answer, r),
{
    match answer {
        JjAnswer::Answered(out) => {
            if any_content(&out) {
                Cleanliness::Dirty
            } else {
                Cleanliness::Clean
            }
        },
        JjAnswer::Failed { status, stderr } => Cleanliness::Unknown(
            "`jj diff` exited ".to_owned().concat(status.as_str()).concat(": ").concat(
                trim(stderr.as_str()).as_str(),
            ),
        ),
        JjAnswer::NotFound => Cleanliness::Unknown("jj not found on PATH".to_owned()),
        JjAnswer::NotStarted(e) => Cleanliness::Unknown(
            "spawning `jj diff` failed: ".to_owned().concat(e.as_str()),
        ),
    }
}

/// Whether the working tree has uncommitted changes.
pub fn cleanliness(probe: Probe) -> (r: Cleanliness)
    ensures
        match probe {
            Probe::NoVcs => r matches Cleanliness::Unknown(why) && why@
                == "no .git or .jj marker at clone path"@,
            Probe::Git(Ok(dirty)) => if dirty {
                r is Dirty
            } else {
                r is Clean
            },
            Probe::Git(Err(e)) => r matches Cleanliness::Unknown(why) && why@
                == "git status read failed: "@ + e@,
            Probe::Jj(answer) => jj_says(answer, r),
        },
{
    match probe {
        Probe::NoVcs => Cleanliness::Unknown("no .git or .jj marker at clone path".to_owned()),
        Probe::Git(Ok(dirty)) => {
            if dirty {
                Cleanliness::Dirty
            } else {
                Cleanliness::Clean
            }
        },
        Probe::Git(Err(e)) => Cleanliness::Unknown(
            "git status read failed: ".to_owned().concat(e.as_str()),
        ),
        Probe::Jj(answer) => jj_cleanliness(answer),
    }
}

/// What to do next about a removal.
#[derive(Debug, Clone, Copy, PartialEq, Eq, Structural)]
pub enum RmStep {
    /// Say what would be done, and stop.
    DryRun,
    /// Look for uncommitted changes.
    Probe,
    /// Refuse: there are uncommitted changes, and nobody to ask.
    Refuse,
    /// Ask, with no as the default; after a warning where there are
    /// uncommitted changes.
    Confirm { warn: bool },
    /// Leave everything as it is.
    Abort,
    /// Remove it.
    Remove,
}

/// What to do next, given whether the tree was found dirty and what the user
/// said, as far as either is known.
pub open spec fn next_step(
    dry_run: bool,
    yes: bool,
    force: bool,
    keep_files: bool,
    dirty: Option<bool>,
    confirmed: Option<bool>,
) -> RmStep {
    let guarded = !keep_files && !force;
    if dry_run {
        RmStep::DryRun
    } else if guarded && dirty is None {
        RmStep::Probe
    } else if guarded && dirty == Some(true) && yes {
        RmStep::Refuse
    } else if yes {
        RmStep::Remove
    } else if confirmed is None {
        RmStep::Confirm { warn: guarded && dirty == Some(true) }
    } else if confirmed == Some(true) {
        RmStep::Remove
    } else {
        RmStep::Abort
    }
}

/// What to do next about a removal.
///
/// A dry run only says what would be done. Unless the files are kept or the
/// removal is forced, the tree is looked at first; one that is known to be
/// dirty is not deleted without a person having said so. An inconclusive look
/// does not stand in the way.
pub fn run(args: &RmArgs, found: Option<&Cleanliness>, confirmed: Option<bool>) -> (r: RmStep)
    ensures
        r == next_step(
            args.dry_run,
            args.yes,
            args.force,
            args.keep_files,
            match found {
                Some(c) => Some(*c is Dirty),
                None => None,
            },
            confirmed,
        ),
{
    if args.dry_run {
        return RmStep::DryRun;
    }
    let guarded = !args.keep_files && !args.force;
    let mut warn = false;
    if guarded {
        match found {
            None => {
                return RmStep::Probe;
            },
            Some(Cleanliness::Dirty) => {
                if args.yes {
                    return RmStep::Refuse;
                }
                warn = true;
            },
            Some(_) => {},
        }
    }
    if args.yes {
        return RmStep::Remove;
    }
    match confirmed {
        None => RmStep::Confirm { warn },
        Some(true) => RmStep::Remove,
        Some(false) => RmStep::Abort,
    }
}

/// What a dry run says would be done.
pub fn fate(keep_files: bool) -> (r: &'static str)
    ensures
        r@ == (if keep_files {
            "drop from shelf (keep files)"@
        } else {
            "delete working tree + drop from shelf"@
        }),
{
    if keep_files {
        "drop from shelf (keep files)"
    } else {
        "delete working tree + drop from shelf"
    }
}

/// The question that a removal is confirmed by.
pub fn question(slug: &str, path: &str, keep_files: bool) -> (r: String)
    ensures
        r@ == (if keep_files {
            "Drop "@ + slug@ + " from the shelf (leaving "@ + path@ + " on disk)?"@
        } else {
            "Delete "@ + slug@ + " at "@ + path@ + " (working tree + shelf entry)?"@
        }),
{
    if keep_files {
        "Drop ".to_owned().concat(slug).concat(" from the shelf (leaving ").concat(path).concat(
            " on disk)?",
        )
    } else {
        "Delete ".to_owned().concat(slug).concat(" at ").concat(path).concat(
            " (working tree + shelf entry)?",
        )
    }
}

/// What is said once a repository is removed.
pub fn outcome_text(outcome: Outcome) -> (r: &'static str)
    ensures
        r@ == (match outcome {
            Outcome::Deleted => "removed (working tree deleted)"@,
            Outcome::AlreadyGone => "removed (working tree was already missing)"@,
            Outcome::KeptFiles => "removed from shelf (files kept on disk)"@,
        }),
{
    match outcome {
        Outcome::Deleted => "removed (working tree deleted)",
        Outcome::AlreadyGone => "removed (working tree was already missing)",
        Outcome::KeptFiles => "removed from shelf (files kept on disk)",
    }
}

/// What is to be done to the disk once the row is off the shelf.
#[derive(Debug, Clone, Copy, PartialEq, Eq, Structural)]
pub enum Disposal {
    /// Nothing: the files are kept.
    Keep,
    /// The working tree is to be deleted.
    DeleteTree,
}

/// Takes the row off the shelf, before anything on disk is touched. Refused,
/// with the shelf unchanged, when the row is not there.
pub fn remove_entry(shelf: &mut Shelf, id: &RepoId, keep_files: bool) -> (r: Result<
    Disposal,
    RmError,
>)
    ensures
        ({
            let i = old(shelf)@.row_index(id.key());
            if i < old(shelf)@.rows.len() {
                &&& r == Ok::<Disposal, RmError>(
                    if keep_files {
                        Disposal::Keep
                    } else {
                        Disposal::DeleteTree
                    },
                )
                &&& final(shelf)@ == old(shelf)@.without(i)
            } else {
                &&& r matches Err(RmError::Vanished(slug)) && slug@ == id.slug_view()
                &&& final(shelf)@ == old(shelf)@
            }
        }),
{
    proof {
        lemma_first_index(shelf@.rows, |r: RepoView| r.key() == id.key());
    }
    let removed = shelf.remove_by_path(
        id.host.as_str(),
        id.owner.as_str(),
        id.name.as_str(),
        opt_as_str(&id.path),
    );
    if removed.is_none() {
        return Err(RmError::Vanished(id.slug()));
    }
    if keep_files {
        Ok(Disposal::Keep)
    } else {
        Ok(Disposal::DeleteTree)
    }
}

/// What stands at a path, links not followed.
#[derive(Debug)]
pub enum AtPath {
    Directory,
    /// A file or a link.
    Other,
    Nothing,
    /// It cannot be looked at, for this reason.
    Unreadable(String),
}

/// How what stands at a path is deleted.
#[derive(Debug, Clone, Copy, PartialEq, Eq, Structural)]
pub enum Deletion {
    /// The directory with everything in it.
    Tree,
    /// The file or the link itself.
    Entry,
    /// There is nothing to delete.
    Nothing,
}

/// How what stands at a clone's path is deleted: a directory with everything in
/// it, a file or a link by itself. Nothing there is no error; anything that
/// cannot be looked at is.
pub fn delete_tree(path: &str, found: AtPath) -> (r: Result<(Deletion, Outcome), RmError>)
    ensures
        match found {
            AtPath::Directory => r == Ok::<(Deletion, Outcome), RmError>(
                (Deletion::Tree, Outcome::Deleted),
            ),
            AtPath::Other => r == Ok::<(Deletion, Outcome), RmError>(
                (Deletion::Entry, Outcome::Deleted),
            ),
            AtPath::Nothing => r == Ok::<(Deletion, Outcome), RmError>(
                (Deletion::Nothing, Outcome::AlreadyGone),
            ),
            AtPath::Unreadable(e) => r matches Err(RmError::Inspect { path: p, cause }) && p@
                == path@ && cause@ == e@,
        },
{
    match found {
        AtPath::Directory => Ok((Deletion::Tree, Outcome::Deleted)),
        AtPath::Other => Ok((Deletion::Entry, Outcome::Deleted)),
        AtPath::Nothing => Ok((Deletion::Nothing, Outcome::AlreadyGone)),
        AtPath::Unreadable(cause) => Err(RmError::Inspect { path: path.to_owned(), cause }),
    }
}

/// Nothing is removed in a dry run, nor before it has been said on the command
/// line or by the user that it shall be; and a tree that is known to be dirty is
/// only deleted when that was forced or a person said so.
pub proof fn law_removal_is_asked_for(
    dry_run: bool,
    yes: bool,
    force: bool,
    keep_files: bool,
    dirty: Option<bool>,
    confirmed: Option<bool>,
)
    requires
        next_step(dry_run, yes, force, keep_files, dirty, confirmed) == RmStep::Remove,
    ensures
        !dry_run,
        yes || confirmed == Some(true),
        !keep_files && dirty == Some(true) ==> force || (!yes && confirmed == Some(true)),
        !keep_files && !force ==> dirty is Some,
{
}

/// Only a tree that is known to be dirty is refused, and only where nobody can
/// be asked: one that could not be looked at is handled like a clean one.
pub proof fn law_only_dirty_trees_are_refused(
    dry_run: bool,
    yes: bool,
    force: bool,
    keep_files: bool,
    dirty: Option<bool>,
    confirmed: Option<bool>,
)
    requires
        next_step(dry_run, yes, force, keep_files, dirty, confirmed) == RmStep::Refuse,
    ensures
        dirty == Some(true) && yes && !force && !keep_files && !dry_run,
{
}

/// Removing one checkout leaves the rows of other checkouts of the same remote
/// alone.
pub proof fn law_only_the_checkout_is_removed(shelf: ShelfView, id: RowKey, other: RowKey)
    requires
        id != other,
    ensures
        ({
            let next = shelf.without(shelf.row_index(id));
            next.at(next.row_index(other)) == shelf.at(shelf.row_index(other))
        }),
{
    law_remove_keeps_other_rows(shelf, id, other);
}

/// A removal that is neither a dry run nor in want of a look at the tree goes on as
/// soon as it is confirmed, on the command line or by the user. The one exception
/// is a tree that is dirty, with nobody to ask and nothing forced. The tree is only
/// looked at where it would be deleted and nothing is forced, and the user is
/// warned exactly where it was found dirty then.
pub proof fn law_steps_of_a_removal(
    dry_run: bool,
    yes: bool,
    force: bool,
    keep_files: bool,
    dirty: Option<bool>,
    confirmed: Option<bool>,
)
    ensures
        ({
            let step = next_step(dry_run, yes, force, keep_files, dirty, confirmed);
            let spared = keep_files || force;
            let known_dirty = !spared && dirty == Some(true);
            let looked = spared || dirty is Some;
            &&& (step == RmStep::DryRun) == dry_run
            &&& (step == RmStep::Probe) == (!dry_run && !spared && dirty is None)
            &&& (step == RmStep::Refuse) == (!dry_run && known_dirty && yes)
            &&& (step == RmStep::Remove) == (!dry_run && looked && ((yes && !known_dirty) || (!yes
                && confirmed == Some(true))))
            &&& step is Confirm == (!dry_run && looked && !yes && confirmed is None)
            &&& step is Confirm ==> step->warn == known_dirty
            &&& (step == RmStep::Abort) == (!dry_run && looked && !yes && confirmed == Some(false))
        }),
{
    if let Some(c) = confirmed {
        assert(c == true || c == false);
    }
    if let Some(d) = dirty {
        assert(d == true || d == false);
    }
}

/// White space is the space, the tab, the newline, the form feed and the carriage
/// return. Bytes have content exactly where they are not of these alone.
pub proof fn law_content(bytes: Seq<u8>, b: u8)
    ensures
        blank(b) == ({
            let c = b as char;
            c == ' ' || c == '\t' || c == '\n' || c == '\x0c' || c == '\r'
        }),
        !has_content(Seq::empty()),
        has_content(bytes.push(b)) == (has_content(bytes) || !blank(b)),
{
    let longer = bytes.push(b);
    if has_content(bytes) {
        let i = choose|i: int| 0 <= i < bytes.len() && !blank(#[trigger] bytes[i]);
        assert(longer[i] == bytes[i]);
    }
    if !blank(b) {
        assert(longer[bytes.len() as int] == b);
    }
    if has_content(longer) {
        let i = choose|i: int| 0 <= i < longer.len() && !blank(#[trigger] longer[i]);
        if i < bytes.len() {
            assert(longer[i] == bytes[i]);
        }
    }
}

/// Only an answer tells whether a tree is dirty; any other outcome leaves it
/// unknown, with what was said of it as the reason.
pub proof fn law_what_jj_tells(answer: JjAnswer, r: Cleanliness)
    requires
        jj_says(answer, r),
    ensures
        r is Unknown == !(answer is Answered),
        answer matches JjAnswer::Answered(out) ==> r is Dirty == has_content(out@),
        answer matches JjAnswer::Failed { status, stderr } ==> {
            &&& has(r->Unknown_0@, status@)
            &&& has(r->Unknown_0@, trimmed(stderr@))
        },
        answer matches JjAnswer::NotStarted(e) ==> has(r->Unknown_0@, e@),
{
    match answer {
        JjAnswer::Failed { status, stderr } => {
            let why = r->Unknown_0@;
            let n = "`jj diff` exited "@.len() as int;
            let t = trimmed(stderr@);
            assert(why.subrange(n, n + status@.len()) =~= status@);
            assert(occurs_at(why, status@, n));
            let m = why.len() - t.len();
            assert(why.subrange(m, m + t.len()) =~= t);
            assert(occurs_at(why, t, m));
        },
        JjAnswer::NotStarted(e) => {
            let why = r->Unknown_0@;
            let m = why.len() - e@.len();
            assert(why.subrange(m, m + e@.len()) =~= e@);
            assert(occurs_at(why, e@, m));
        },
        _ => {},
    }
}

/// What is said of a removal that was refused names the row, or the path and the reason.
pub proof fn law_messages_of_a_removal(e: RmError)
    ensures
        e matches RmError::Vanished(slug) ==> has(e.text(), slug@),
        e matches RmError::Dirty(slug) ==> has(e.text(), slug@),
        e matches RmError::Inspect { path, cause } ==> has(e.text(), path@ + ": "@ + cause@),
{
    match e {
        RmError::Vanished(slug) => {
            lemma_stands_between("internal: "@, slug@, " vanished from the shelf before removal"@);
        },
        RmError::Dirty(slug) => {
            lemma_stands_at_an_end(
                Seq::empty(),
                slug@,
                " has uncommitted changes — commit or stash them, or re-run with --force to delete anyway"@,
            );
        },
        RmError::Inspect { path, cause } => {
            lemma_told_in_order("inspecting clone path "@, path@, ": "@, cause@);
        },
    }
}

} // verus!
