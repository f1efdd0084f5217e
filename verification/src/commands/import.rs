//! `shoka import`: existing checkouts are put on the shelf where they are.
//!
//! A directory that holds `.git` or `.jj` is a checkout. Its identity comes
//! from its remote's URL, or else from its directory and the one above; either
//! way its row is pinned to its path.
use vstd::prelude::*;
use vstd::string::*;

use crate::fspath::{
    absolute_path, file_name, file_name_of, from_root, join, law_components,
    law_parent_and_file_name, made_absolute, parent, parent_of, path_join, path_key, plain_part,
    plain_parts, same_path, windows,
};
use crate::remote::{
    ends_in_dot_git, law_path_names_owner_and_name, lemma_no_slashes, parse_remote_url, parts_of,
    PartsError, RemoteUrl,
};
use crate::seqs::lemma_first_index;
use crate::state::{Repo, RepoView, Shelf, ShelfView, law_added_row_is_found, row_key};
use crate::text::{
    decimal, decimal_of, has, lemma_stands_between, line_if, occurs_at, opt_as_str, opt_text,
    push_if, same_text, texts,
};

verus! {

/// The host of repositories that have no remote to name one.
pub const LOCAL_HOST: &'static str = "local";

/// What became of one checkout.
#[derive(Debug, Clone, Copy, PartialEq, Eq, Structural)]
pub enum Outcome {
    /// It got a new row.
    Imported,
    /// The remote's row without a path was given its path.
    PathFilled,
    /// Its row was there already.
    AlreadyOnShelf,
}

impl ShelfView {
    /// The position of the row without a path that a checkout may claim, or
    /// the length.
    pub open spec fn bare_index(self, repo: RepoView) -> int {
        self.row_index(row_key(repo.host, repo.owner, repo.name, None))
    }

    /// What becomes of a checkout.
    pub open spec fn adoption(self, repo: RepoView) -> Outcome {
        if self.row_index(repo.key()) < self.rows.len() {
            Outcome::AlreadyOnShelf
        } else if repo.path is Some && self.bare_index(repo) < self.rows.len() {
            Outcome::PathFilled
        } else {
            Outcome::Imported
        }
    }

    /// The shelf once a checkout is on it: unchanged when it was there, with
    /// the remote's row without a path pinned when there is one, and else with
    /// one more row.
    pub open spec fn adopted(self, repo: RepoView) -> ShelfView {
        match self.adoption(repo) {
            Outcome::AlreadyOnShelf => self,
            Outcome::PathFilled => {
                let i = self.bare_index(repo);
                ShelfView {
                    rows: self.rows.update(i, RepoView { path: repo.path, ..self.rows[i] }),
                    ..self
                }
            },
            Outcome::Imported => self.with(repo),
        }
    }
}

/// Puts a checkout on the shelf.
pub fn upsert_into_shelf(shelf: &mut Shelf, repo: Repo) -> (r: Outcome)
    ensures
        r == old(shelf)@.adoption(repo@),
        final(shelf)@ == old(shelf)@.adopted(repo@),
{
    let ghost before = shelf@;
    let ghost one = repo@;
    proof {
        lemma_first_index(before.rows, |r: RepoView| r.key() == one.key());
        lemma_first_index(
            before.rows,
            |r: RepoView| r.key() == row_key(one.host, one.owner, one.name, None),
        );
    }
    if shelf.find_by_path(
        repo.host.as_str(),
        repo.owner.as_str(),
        repo.name.as_str(),
        opt_as_str(&repo.path),
    ).is_some() {
        return Outcome::AlreadyOnShelf;
    }
    if repo.path.is_some() {
        if let Some(existing) = shelf.find_mut_by_path(
            repo.host.as_str(),
            repo.owner.as_str(),
            repo.name.as_str(),
            None,
        ) {
            existing.path = repo.path;
            return Outcome::PathFilled;
        }
    }
    let _ = shelf.add(repo);
    Outcome::Imported
}

/// The identity of a checkout without a usable remote: its directory is the
/// name, and the one above the owner.
pub open spec fn local_repo_view(abs: Seq<char>) -> RepoView {
    RepoView {
        host: LOCAL_HOST@,
        owner: match parent_of(abs) {
            Some(dir) => match file_name_of(dir) {
                Some(owner) => owner,
                None => "_"@,
            },
            None => "_"@,
        },
        name: match file_name_of(abs) {
            Some(name) => name,
            None => abs,
        },
        path: Some(abs),
        vcs: None,
        tags: Seq::empty(),
        note: None,
    }
}

/// The row of a checkout at an absolute path that has no usable remote.
pub fn local_repo(abs: String) -> (r: Repo)
    ensures
        r@ == local_repo_view(abs@),
{
    let name = match file_name(abs.as_str()) {
        Some(name) => name,
        None => abs.clone(),
    };
    let owner = match parent(abs.as_str()) {
        Some(dir) => match file_name(dir.as_str()) {
            Some(owner) => owner,
            None => "_".to_owned(),
        },
        None => "_".to_owned(),
    };
    Repo::new(LOCAL_HOST, owner.as_str(), name.as_str()).with_path(abs)
}

/// The row of a checkout that has no usable remote.
pub fn synthesise_local(repo_root: &str) -> (r: Repo)
    ensures
        exists|abs: Seq<char>| made_absolute(repo_root@, abs) && r@ == #[trigger] local_repo_view(
            abs,
        ),
{
    let abs = absolute_path(repo_root);
    let ghost text = abs@;
    let r = local_repo(abs);
    assert(r@ == local_repo_view(text));
    r
}

/// The row of a git checkout at an absolute path, given its remote's URL where
/// it has one.
pub open spec fn git_repo_view(
    abs: Seq<char>,
    url: Option<(Option<Seq<char>>, Option<Seq<char>>)>,
) -> RepoView {
    match url {
        Some((host, path)) => match parts_of(host, path) {
            Ok(parts) => RepoView {
                host: parts.host,
                owner: parts.owner,
                name: parts.name,
                path: Some(abs),
                vcs: None,
                tags: Seq::empty(),
                note: None,
            },
            Err(_) => local_repo_view(abs),
        },
        None => local_repo_view(abs),
    }
}

/// The URL's host and path, as texts.
pub open spec fn url_texts(url: Option<RemoteUrl>) -> Option<
    (Option<Seq<char>>, Option<Seq<char>>),
> {
    match url {
        Some(u) => Some((opt_text(u.host), opt_text(u.path))),
        None => None,
    }
}

/// The row of a git checkout at an absolute path: named by its remote's URL
/// where that names an owner and a name, else by its directories; pinned to
/// its path either way. Also says why a URL was not used.
pub fn extract_git_repo(abs: String, url: Option<RemoteUrl>) -> (r: (Repo, Option<PartsError>))
    ensures
        r.0@ == git_repo_view(abs@, url_texts(url)),
        match url {
            Some(u) => match parts_of(opt_text(u.host), opt_text(u.path)) {
                Ok(_) => r.1 is None,
                Err(fault) => r.1 is Some && r.1->0.fault == fault,
            },
            None => r.1 is None,
        },
{
    match url {
        None => (local_repo(abs), None),
        Some(u) => match parse_remote_url(&u) {
            Ok(parts) => {
                let repo = Repo::new(
                    parts.host.as_str(),
                    parts.owner.as_str(),
                    parts.name.as_str(),
                ).with_path(abs);
                (repo, None)
            },
            Err(e) => (local_repo(abs), Some(e)),
        },
    }
}

/// What marks a directory as a checkout.
#[derive(Debug, Clone, Copy, PartialEq, Eq, Structural)]
pub enum Marker {
    Git,
    Jj,
}

/// What a directory entry marks its parent as.
pub open spec fn marker_of(path: Seq<char>, is_dir: bool) -> Option<Marker> {
    if !is_dir {
        None
    } else if file_name_of(path) == Some(".git"@) {
        Some(Marker::Git)
    } else if file_name_of(path) == Some(".jj"@) {
        Some(Marker::Jj)
    } else {
        None
    }
}

/// What a directory entry marks its parent as.
pub fn marker(path: &str, is_dir: bool) -> (r: Option<Marker>)
    ensures
        r == marker_of(path@, is_dir),
{
    if !is_dir {
        return None;
    }
    match file_name(path) {
        Some(name) => {
            if same_text(name.as_str(), ".git") {
                Some(Marker::Git)
            } else if same_text(name.as_str(), ".jj") {
                proof {
                    reveal_strlit(".git");
                    reveal_strlit(".jj");
                    assert(".git"@.len() != ".jj"@.len());
                }
                Some(Marker::Jj)
            } else {
                None
            }
        },
        None => None,
    }
}

/// What to do about a directory entry.
#[derive(Debug)]
pub enum ImportAction {
    /// Go on with the walk.
    Walk,
    /// Do not descend into it.
    Prune,
    /// Do not descend into it, and import the git checkout at this root.
    Git(String),
    /// Do not descend into it, and import the jj checkout at this root.
    Jj(String),
}

/// An import in progress.
#[derive(Debug)]
pub struct Import {
    /// The roots seen so far, each once.
    pub roots: Vec<String>,
    pub imported: usize,
    pub updated: usize,
    pub skipped_already: usize,
    pub errors: usize,
}

/// Whether a root was seen before, in whatever spelling.
pub open spec fn seen(roots: Seq<Seq<char>>, root: Seq<char>) -> bool {
    exists|i: int| 0 <= i < roots.len() && path_key(#[trigger] roots[i]) == path_key(root)
}

impl Import {
    /// No root is held twice.
    pub open spec fn wf(self) -> bool {
        forall|i: int, j: int|
            #![trigger self.roots@[i], self.roots@[j]]
            0 <= i < j < self.roots@.len() ==> path_key(self.roots@[i]@) != path_key(
                self.roots@[j]@,
            )
    }

    /// An import before its walk.
    pub fn new() -> (r: Self)
        ensures
            r.wf(),
            r.roots@.len() == 0,
            r.imported == 0,
            r.updated == 0,
            r.skipped_already == 0,
            r.errors == 0,
    {
        Import { roots: Vec::new(), imported: 0, updated: 0, skipped_already: 0, errors: 0 }
    }

    /// What to do about a directory entry, given whether the directory that it
    /// stands in holds `.git`. A marker is not descended into; the first marker
    /// in a directory makes that a root to import, as a git checkout where
    /// there is `.git`, and a second one does not.
    pub fn see(&mut self, entry: &str, is_dir: bool, has_git: bool) -> (r: ImportAction)
        requires
            old(self).wf(),
        ensures
            final(self).wf(),
            final(self).imported == old(self).imported,
            final(self).updated == old(self).updated,
            final(self).skipped_already == old(self).skipped_already,
            final(self).errors == old(self).errors,
            ({
                let m = marker_of(entry@, is_dir);
                let root = parent_of(entry@);
                let roots = texts(old(self).roots@);
                if m is None {
                    r is Walk && texts(final(self).roots@) == roots
                } else if root is None || seen(roots, root->0) {
                    r is Prune && texts(final(self).roots@) == roots
                } else {
                    &&& texts(final(self).roots@) == roots.push(root->0)
                    &&& if m == Some(Marker::Git) || has_git {
                        r matches ImportAction::Git(p) && p@ == root->0
                    } else {
                        r matches ImportAction::Jj(p) && p@ == root->0
                    }
                }
            }),
    {
        let m = match marker(entry, is_dir) {
            Some(m) => m,
            None => {
                return ImportAction::Walk;
            },
        };
        let root = match parent(entry) {
            Some(root) => root,
            None => {
                return ImportAction::Prune;
            },
        };
        let ghost roots = texts(self.roots@);
        let mut i: usize = 0;
        while i < self.roots.len()
            invariant
                self.wf(),
                *self == *old(self),
                roots == texts(self.roots@),
                marker_of(entry@, is_dir) == Some(m),
                parent_of(entry@) == Some(root@),
                i <= self.roots@.len(),
                forall|k: int| 0 <= k < i ==> path_key(#[trigger] roots[k]) != path_key(root@),
            decreases self.roots@.len() - i,
        {
            assert(roots[i as int] == self.roots@[i as int]@);
            if same_path(self.roots[i].as_str(), root.as_str()) {
                return ImportAction::Prune;
            }
            i = i + 1;
        }
        let ghost was = self.roots@;
        let kept = root.clone();
        self.roots.push(kept);
        proof {
            assert(texts(self.roots@) =~= roots.push(root@));
            assert forall|a: int, b: int|
                #![trigger self.roots@[a], self.roots@[b]]
                0 <= a < b < self.roots@.len() implies path_key(self.roots@[a]@) != path_key(
                self.roots@[b]@,
            ) by {
                assert(self.roots@[a] == was[a]);
                if b < was.len() {
                    assert(self.roots@[b] == was[b]);
                } else {
                    assert(roots[a] == was[a]@);
                }
            }
        }
        if m == Marker::Git || has_git {
            ImportAction::Git(root)
        } else {
            ImportAction::Jj(root)
        }
    }

    /// Counts an entry or a checkout that could not be read.
    pub fn failed(&mut self)
        ensures
            *final(self) == (Import { errors: bumped(old(self).errors, true), ..*old(self) }),
    {
        self.errors = self.errors.saturating_add(1);
    }

    /// Puts a checkout on the shelf and counts what became of it. The counts
    /// stay what they are at the limit of their type.
    pub fn fold(&mut self, shelf: &mut Shelf, repo: Repo) -> (r: Outcome)
        ensures
            r == old(shelf)@.adoption(repo@),
            final(shelf)@ == old(shelf)@.adopted(repo@),
            final(self).roots@ == old(self).roots@,
            final(self).errors == old(self).errors,
            final(self).imported == bumped(old(self).imported, r == Outcome::Imported),
            final(self).updated == bumped(old(self).updated, r == Outcome::PathFilled),
            final(self).skipped_already == bumped(
                old(self).skipped_already,
                r == Outcome::AlreadyOnShelf,
            ),
    {
        let outcome = upsert_into_shelf(shelf, repo);
        match outcome {
            Outcome::Imported => {
                self.imported = self.imported.saturating_add(1);
            },
            Outcome::PathFilled => {
                self.updated = self.updated.saturating_add(1);
            },
            Outcome::AlreadyOnShelf => {
                self.skipped_already = self.skipped_already.saturating_add(1);
            },
        }
        outcome
    }

    /// What is said at the end.
    pub fn summary(&self, on_shelf: usize) -> (r: Vec<String>)
        ensures
            texts(r@) == summary_texts(
                self.imported,
                self.updated,
                self.skipped_already,
                self.errors,
                on_shelf,
            ),
    {
        let mut out: Vec<String> = Vec::new();
        let first = decimal_of(self.imported as u64).concat(" imported, ").concat(
            decimal_of(on_shelf as u64).as_str(),
        ).concat(" on shelf total");
        let ghost head = first@;
        out.push(first);
        assert(texts(out@) =~= seq![head]);
        push_if(
            &mut out,
            self.updated > 0,
            decimal_of(self.updated as u64).concat(" path refreshed"),
        );
        push_if(
            &mut out,
            self.skipped_already > 0,
            decimal_of(self.skipped_already as u64).concat(" already on shelf"),
        );
        push_if(
            &mut out,
            self.errors > 0,
            decimal_of(self.errors as u64).concat(
                " read errors (see SHOKA_LOG=warn for details)",
            ),
        );
        out
    }
}

/// A count, one higher where that is so and the type allows it.
pub open spec fn bumped(n: usize, up: bool) -> usize {
    if up && n < usize::MAX {
        (n + 1) as usize
    } else {
        n
    }
}

/// What is said at the end of an import: what was imported, and each other
/// count that is not zero.
pub open spec fn summary_texts(
    imported: usize,
    updated: usize,
    skipped: usize,
    errors: usize,
    on_shelf: usize,
) -> Seq<Seq<char>> {
    seq![
        decimal(imported as nat) + " imported, "@ + decimal(on_shelf as nat) + " on shelf total"@,
    ] + line_if(updated > 0, decimal(updated as nat) + " path refreshed"@) + line_if(
        skipped > 0,
        decimal(skipped as nat) + " already on shelf"@,
    ) + line_if(
        errors > 0,
        decimal(errors as nat) + " read errors (see SHOKA_LOG=warn for details)"@,
    )
}

/// Why there is nothing to import from.
#[derive(Debug)]
pub enum ImportError {
    /// The source is not a directory.
    NotADirectory(String),
    /// There is no home directory to look for sources in.
    NoHome,
    /// None of the usual sources is there.
    NoSource(String),
}

impl ImportError {
    /// The text of the message.
    pub open spec fn text(self) -> Seq<char> {
        match self {
            ImportError::NotADirectory(p) => "import source "@ + p@ + " is not a directory"@,
            ImportError::NoHome => "could not locate home dir for default candidates"@,
            ImportError::NoSource(home) => "no common source dirs found under "@ + home@
                + " — pass `--path` to specify one"@,
        }
    }

    /// The message shown to the user.
    pub fn message(&self) -> (r: String)
        ensures
            r@ == self.text(),
    {
        match self {
            ImportError::NotADirectory(p) => "import source ".to_owned().concat(
                p.as_str(),
            ).concat(" is not a directory"),
            ImportError::NoHome => "could not locate home dir for default candidates".to_owned(),
            ImportError::NoSource(home) => "no common source dirs found under ".to_owned().concat(
                home.as_str(),
            ).concat(" — pass `--path` to specify one"),
        }
    }
}

/// The source of an import, where it is a directory.
pub fn check_source(path: String, is_dir: bool) -> (r: Result<String, ImportError>)
    ensures
        match r {
            Ok(p) => is_dir && p == path,
            Err(e) => !is_dir && (e matches ImportError::NotADirectory(p) && p@ == path@),
        },
{
    if is_dir {
        Ok(path)
    } else {
        Err(ImportError::NotADirectory(path))
    }
}

/// The usual sources under a home directory.
pub open spec fn usual_sources(home: Seq<char>) -> Seq<Seq<char>> {
    seq![
        path_join(home, "ghq"@),
        path_join(home, "src"@),
        path_join(home, "dev"@),
        path_join(home, "Code"@),
        path_join(home, "code"@),
        path_join(home, "repos"@),
        path_join(home, "Projects"@),
    ]
}

/// The usual sources under a home directory, to be looked for.
pub fn source_candidates(home: &str) -> (r: Vec<String>)
    ensures
        texts(r@) == usual_sources(home@),
{
    let r = vec![
        join(home, "ghq"),
        join(home, "src"),
        join(home, "dev"),
        join(home, "Code"),
        join(home, "code"),
        join(home, "repos"),
        join(home, "Projects"),
    ];
    assert(texts(r@) =~= usual_sources(home@));
    r
}

/// The sources to offer: those that are there, or that none is.
pub fn prompt_for_source(home: &str, present: Vec<String>) -> (r: Result<Vec<String>, ImportError>)
    ensures
        match r {
            Ok(v) => present@.len() > 0 && v == present,
            Err(e) => present@.len() == 0 && (e matches ImportError::NoSource(h) && h@ == home@),
        },
{
    if present.len() == 0 {
        Err(ImportError::NoSource(home.to_owned()))
    } else {
        Ok(present)
    }
}

/// Once a directory was made a root, it counts as seen, whatever is seen
/// afterwards; so a second marker in it is passed over, and a checkout with
/// both markers is imported once.
pub proof fn law_second_marker_is_passed_over(
    roots: Seq<Seq<char>>,
    root: Seq<char>,
    later: Seq<Seq<char>>,
)
    ensures
        seen(roots.push(root) + later, root),
{
    assert((roots.push(root) + later)[roots.len() as int] == root);
}

/// Once a checkout is on the shelf, its identity finds it, and importing it
/// again changes nothing.
pub proof fn law_import_is_idempotent(shelf: ShelfView, repo: RepoView)
    ensures
        ({
            let next = shelf.adopted(repo);
            &&& next.row_index(repo.key()) < next.rows.len()
            &&& next.adoption(repo) == Outcome::AlreadyOnShelf
            &&& next.adopted(repo) == next
        }),
{
    let next = shelf.adopted(repo);
    let p = |r: RepoView| r.key() == repo.key();
    let bare = row_key(repo.host, repo.owner, repo.name, None);
    lemma_first_index(shelf.rows, p);
    lemma_first_index(shelf.rows, |r: RepoView| r.key() == bare);
    match shelf.adoption(repo) {
        Outcome::AlreadyOnShelf => {},
        Outcome::PathFilled => {
            let i = shelf.bare_index(repo);
            assert(shelf.rows[i].key() == bare);
            assert(p(next.rows[i]));
            lemma_first_index(next.rows, p);
            if next.row_index(repo.key()) == next.rows.len() {
                assert(!p(next.rows[i]));
            }
        },
        Outcome::Imported => {
            law_added_row_is_found(shelf, repo);
        },
    }
}

/// An import keeps identities distinct, and leaves every row alone but the one
/// of its checkout.
pub proof fn law_import_keeps_other_rows(shelf: ShelfView, repo: RepoView)
    ensures
        ({
            let next = shelf.adopted(repo);
            &&& shelf.distinct() ==> next.distinct()
            &&& shelf.rows.len() <= next.rows.len() <= shelf.rows.len() + 1
            &&& forall|j: int|
                0 <= j < shelf.rows.len() && !(shelf.adoption(repo) == Outcome::PathFilled && j
                    == shelf.bare_index(repo)) ==> #[trigger] next.rows[j] == shelf.rows[j]
        }),
{
    let next = shelf.adopted(repo);
    let p = |r: RepoView| r.key() == repo.key();
    let bare = row_key(repo.host, repo.owner, repo.name, None);
    lemma_first_index(shelf.rows, p);
    lemma_first_index(shelf.rows, |r: RepoView| r.key() == bare);
    let i = shelf.bare_index(repo);
    if shelf.distinct() && shelf.adoption(repo) != Outcome::AlreadyOnShelf {
        assert forall|a: int, b: int|
            #![trigger next.rows[a], next.rows[b]]
            0 <= a < b < next.rows.len() implies next.rows[a].key() != next.rows[b].key() by {
            let k = if shelf.adoption(repo) == Outcome::PathFilled {
                i
            } else {
                shelf.rows.len() as int
            };
            if shelf.adoption(repo) == Outcome::PathFilled {
                assert(shelf.rows[i].key() == bare);
            }
            assert(next.rows[k].key() == repo.key());
            if a != k {
                assert(next.rows[a] == shelf.rows[a]);
                assert(!p(shelf.rows[a]));
            }
            if b != k {
                assert(next.rows[b] == shelf.rows[b]);
                assert(!p(shelf.rows[b]));
            }
        }
    }
}

/// The row at this position is of the same remote and has no path.
pub open spec fn is_bare_row_of(shelf: ShelfView, repo: RepoView, i: int) -> bool {
    &&& 0 <= i < shelf.rows.len()
    &&& shelf.rows[i].host == repo.host && shelf.rows[i].owner == repo.owner && shelf.rows[i].name
        == repo.name && shelf.rows[i].path is None
}

/// The row at this position has the same identity.
pub open spec fn is_row_of(shelf: ShelfView, repo: RepoView, i: int) -> bool {
    0 <= i < shelf.rows.len() && shelf.rows[i].key() == repo.key()
}

/// A checkout whose identity is on the shelf changes nothing. One that is not, and
/// has a path, gives it to the first row of its remote without one, which keeps all
/// else that it holds. Without such a row, or without a path, it gets a row of its
/// own, behind all others.
pub proof fn law_what_becomes_of_a_checkout(shelf: ShelfView, repo: RepoView)
    ensures
        (shelf.adoption(repo) == Outcome::AlreadyOnShelf) == (exists|i: int| #[trigger]
            is_row_of(shelf, repo, i)),
        (shelf.adoption(repo) == Outcome::PathFilled) == {
            &&& !(exists|i: int| #[trigger] is_row_of(shelf, repo, i))
            &&& repo.path is Some
            &&& exists|i: int| #[trigger] is_bare_row_of(shelf, repo, i)
        },
        shelf.adoption(repo) == Outcome::AlreadyOnShelf ==> shelf.adopted(repo) == shelf,
        shelf.adoption(repo) == Outcome::PathFilled ==> exists|i: int|
            {
                &&& #[trigger] is_bare_row_of(shelf, repo, i)
                &&& forall|j: int| 0 <= j < i ==> !#[trigger] is_bare_row_of(shelf, repo, j)
                &&& shelf.adopted(repo).rows == shelf.rows.update(
                    i,
                    RepoView { path: repo.path, ..shelf.rows[i] },
                )
                &&& shelf.adopted(repo).version == shelf.version
            },
        shelf.adoption(repo) == Outcome::Imported ==> {
            &&& shelf.adopted(repo).rows == shelf.rows.push(repo)
            &&& shelf.adopted(repo).version == shelf.version
        },
{
    let bare = row_key(repo.host, repo.owner, repo.name, None);
    let p = |r: RepoView| r.key() == repo.key();
    let q = |r: RepoView| r.key() == bare;
    lemma_first_index(shelf.rows, p);
    lemma_first_index(shelf.rows, q);
    let a = shelf.row_index(repo.key());
    let b = shelf.bare_index(repo);
    if a < shelf.rows.len() {
        assert(is_row_of(shelf, repo, a));
    }
    assert forall|i: int| #[trigger] is_row_of(shelf, repo, i) implies a < shelf.rows.len() by {
        assert(p(shelf.rows[i]));
    }
    assert forall|i: int| #[trigger] is_bare_row_of(shelf, repo, i) == (0 <= i < shelf.rows.len()
        && q(shelf.rows[i])) by {}
    if b < shelf.rows.len() {
        assert(q(shelf.rows[b]));
        assert(is_bare_row_of(shelf, repo, b));
        assert forall|j: int| 0 <= j < b implies !#[trigger] is_bare_row_of(shelf, repo, j) by {
            assert(!q(shelf.rows[j]));
        }
    } else {
        assert forall|i: int| !#[trigger] is_bare_row_of(shelf, repo, i) by {
            if 0 <= i < shelf.rows.len() {
                assert(!q(shelf.rows[i]));
            }
        }
    }
}

/// A checkout without a usable remote is named by its directory and the one above;
/// right under the root, where there is none above, its owner is `_`. Its host is
/// `local`, and it is pinned to its path.
pub proof fn law_local_checkout(dirs: Seq<Seq<char>>, owner: Seq<char>, name: Seq<char>)
    requires
        plain_parts(dirs),
        plain_part(owner),
        plain_part(name),
        owner != ".."@,
        name != ".."@,
    ensures
        ({
            let abs = from_root(dirs.push(owner).push(name));
            local_repo_view(abs) == (RepoView {
                host: "local"@,
                owner,
                name,
                path: Some(abs),
                vcs: None,
                tags: Seq::empty(),
                note: None,
            })
        }),
        ({
            let abs = from_root(seq![name]);
            local_repo_view(abs).owner == "_"@ && local_repo_view(abs).name == name
        }),
{
    let up = dirs.push(owner);
    assert forall|i: int| 0 <= i < up.len() implies plain_part(#[trigger] up[i]) by {
        if i < dirs.len() {
            assert(up[i] == dirs[i]);
        }
    }
    law_parent_and_file_name(up, name);
    law_parent_and_file_name(dirs, owner);
    let none = Seq::<Seq<char>>::empty();
    law_parent_and_file_name(none, name);
    assert(none.push(name) =~= seq![name]);
    law_components(none);
}

/// A git checkout is named by its remote's URL exactly where that names an owner and
/// a name, and otherwise like one without a remote. Either way it is pinned to its
/// path, and nothing else is set.
pub proof fn law_git_checkout(
    abs: Seq<char>,
    url: Option<(Option<Seq<char>>, Option<Seq<char>>)>,
    host: Seq<char>,
    owner: Seq<char>,
    name: Seq<char>,
)
    requires
        owner.len() > 0,
        !owner.contains('/'),
        name.len() > 0,
        !name.contains('/'),
        !ends_in_dot_git(name),
    ensures
        ({
            let row = git_repo_view(abs, Some((Some(host), Some("/"@ + owner + "/"@ + name))));
            row.host == host && row.owner == owner && row.name == name
        }),
        ({
            let row = git_repo_view(
                abs,
                Some((Some(host), Some(owner + "/"@ + name + ".git"@))),
            );
            row.host == host && row.owner == owner && row.name == name
        }),
        git_repo_view(abs, None) == local_repo_view(abs),
        url matches Some((None, _)) ==> git_repo_view(abs, url) == local_repo_view(abs),
        ({
            let row = git_repo_view(abs, url);
            &&& row.path == Some(abs)
            &&& row.vcs is None && row.tags.len() == 0 && row.note is None
        }),
{
    law_path_names_owner_and_name(host, owner, name, 1, 0);
    lemma_no_slashes("/"@ + owner + "/"@ + name);
    law_path_names_owner_and_name(host, owner, name, 0, 0);
    lemma_no_slashes(owner);
    lemma_no_slashes(owner + "/"@ + name + ".git"@);
}

/// A directory is a checkout by the directories `.git` and `.jj` in it, and by
/// nothing else: no file, and no directory of another name.
pub proof fn law_markers(dirs: Seq<Seq<char>>, name: Seq<char>)
    requires
        plain_parts(dirs),
        plain_part(name),
        name != ".."@,
    ensures
        marker_of(from_root(dirs.push(name)), false) is None,
        (marker_of(from_root(dirs.push(name)), true) == Some(Marker::Git)) == (name == ".git"@),
        (marker_of(from_root(dirs.push(name)), true) == Some(Marker::Jj)) == (name == ".jj"@),
{
    reveal_strlit(".git");
    reveal_strlit(".jj");
    law_parent_and_file_name(dirs, name);
}

/// A root is seen exactly when it was seen before or is the one just added, in
/// whatever spelling; at first none is.
pub proof fn law_seen(roots: Seq<Seq<char>>, root: Seq<char>, other: Seq<char>)
    ensures
        !seen(Seq::empty(), root),
        seen(roots.push(root), other) == (seen(roots, other) || path_key(root) == path_key(other)),
{
    let more = roots.push(root);
    if seen(roots, other) {
        let i = choose|i: int|
            0 <= i < roots.len() && path_key(#[trigger] roots[i]) == path_key(other);
        assert(more[i] == roots[i]);
    }
    assert(more[roots.len() as int] == root);
    if seen(more, other) {
        let i = choose|i: int|
            0 <= i < more.len() && path_key(#[trigger] more[i]) == path_key(other);
        if i < roots.len() {
            assert(roots[i] == more[i]);
        }
    }
}

/// A count goes up by one where it is to, unless it cannot, and never otherwise.
pub proof fn law_bumped(n: usize)
    ensures
        bumped(n, false) == n,
        n < usize::MAX ==> bumped(n, true) == n + 1,
        bumped(usize::MAX, true) == usize::MAX,
{
}

/// The summary tells how many checkouts were imported and how many rows there are,
/// and has one more line for each other count that is not zero, which begins with
/// it.
pub proof fn law_import_summary(
    imported: usize,
    updated: usize,
    skipped: usize,
    errors: usize,
    on_shelf: usize,
)
    ensures
        ({
            let lines = summary_texts(imported, updated, skipped, errors, on_shelf);
            let a: int = if updated > 0 {
                1
            } else {
                0
            };
            let b: int = if skipped > 0 {
                1
            } else {
                0
            };
            let c: int = if errors > 0 {
                1
            } else {
                0
            };
            &&& lines.len() == 1 + a + b + c
            &&& occurs_at(lines[0], decimal(imported as nat), 0)
            &&& occurs_at(
                lines[0],
                decimal(on_shelf as nat),
                decimal(imported as nat).len() as int + 11,
            )
            &&& a == 1 ==> occurs_at(lines[1], decimal(updated as nat), 0)
            &&& b == 1 ==> occurs_at(lines[1 + a], decimal(skipped as nat), 0)
            &&& c == 1 ==> occurs_at(lines[1 + a + b], decimal(errors as nat), 0)
        }),
{
    reveal_strlit(" imported, ");
    let lines = summary_texts(imported, updated, skipped, errors, on_shelf);
    let a: int = if updated > 0 {
        1
    } else {
        0
    };
    let b: int = if skipped > 0 {
        1
    } else {
        0
    };
    let first = lines[0];
    let x = decimal(imported as nat);
    let y = decimal(on_shelf as nat);
    assert(first.subrange(0, x.len() as int) =~= x);
    let k = x.len() as int + 11;
    assert(first.subrange(k, k + y.len()) =~= y);
    if updated > 0 {
        let z = decimal(updated as nat);
        assert(lines[1].subrange(0, z.len() as int) =~= z);
    }
    if skipped > 0 {
        let z = decimal(skipped as nat);
        assert(lines[1 + a].subrange(0, z.len() as int) =~= z);
    }
    if errors > 0 {
        let z = decimal(errors as nat);
        assert(lines[1 + a + b].subrange(0, z.len() as int) =~= z);
    }
}

/// The usual sources lie right in the home directory.
pub proof fn law_usual_sources(home: Seq<Seq<char>>)
    requires
        plain_parts(home),
    ensures
        ({
            let all = usual_sources(from_root(home));
            &&& all.len() == 7
            &&& all[0] == from_root(home.push("ghq"@))
            &&& all[1] == from_root(home.push("src"@))
            &&& all[2] == from_root(home.push("dev"@))
            &&& all[3] == from_root(home.push("Code"@))
            &&& all[4] == from_root(home.push("code"@))
            &&& all[5] == from_root(home.push("repos"@))
            &&& all[6] == from_root(home.push("Projects"@))
        }),
{
    reveal_strlit("ghq");
    reveal_strlit("src");
    reveal_strlit("dev");
    reveal_strlit("Code");
    reveal_strlit("code");
    reveal_strlit("repos");
    reveal_strlit("Projects");
    reveal_strlit(".");
    assert(plain_part("ghq"@) && !windows("ghq"@)) by {
        assert("ghq"@[0] == 'g' && "ghq"@[1] == 'h' && "ghq"@[2] == 'q');
    }
    assert(plain_part("src"@) && !windows("src"@)) by {
        assert("src"@[0] == 's' && "src"@[1] == 'r' && "src"@[2] == 'c');
    }
    assert(plain_part("dev"@) && !windows("dev"@)) by {
        assert("dev"@[0] == 'd' && "dev"@[1] == 'e' && "dev"@[2] == 'v');
    }
    assert(plain_part("Code"@) && !windows("Code"@)) by {
        let s = "Code"@;
        assert(s[0] == 'C' && s[1] == 'o' && s[2] == 'd' && s[3] == 'e');
    }
    assert(plain_part("code"@) && !windows("code"@)) by {
        let s = "code"@;
        assert(s[0] == 'c' && s[1] == 'o' && s[2] == 'd' && s[3] == 'e');
    }
    assert(plain_part("repos"@) && !windows("repos"@)) by {
        let s = "repos"@;
        assert(s[0] == 'r' && s[1] == 'e' && s[2] == 'p' && s[3] == 'o' && s[4] == 's');
    }
    assert(plain_part("Projects"@) && !windows("Projects"@)) by {
        let s = "Projects"@;
        assert(s[0] == 'P' && s[1] == 'r' && s[2] == 'o' && s[3] == 'j' && s[4] == 'e' && s[5]
            == 'c' && s[6] == 't' && s[7] == 's');
    }
    law_parent_and_file_name(home, "ghq"@);
    law_parent_and_file_name(home, "src"@);
    law_parent_and_file_name(home, "dev"@);
    law_parent_and_file_name(home, "Code"@);
    law_parent_and_file_name(home, "code"@);
    law_parent_and_file_name(home, "repos"@);
    law_parent_and_file_name(home, "Projects"@);
}

/// What is said where there is nothing to import from names the source, or the home
/// directory.
pub proof fn law_messages_of_an_import(e: ImportError)
    ensures
        e matches ImportError::NotADirectory(p) ==> has(e.text(), p@),
        e matches ImportError::NoSource(home) ==> has(e.text(), home@),
{
    match e {
        ImportError::NotADirectory(p) => {
            lemma_stands_between("import source "@, p@, " is not a directory"@);
        },
        ImportError::NoSource(home) => {
            let head = "no common source dirs found under "@;
            lemma_stands_between(head, home@, " — pass `--path` to specify one"@);
        },
        _ => {},
    }
}

} // verus!
