//! The shelf: the portable ledger of repositories.
//!
//! A row's identity is `(host, owner, name, path?)`, so two checkouts of one
//! remote at different paths are two rows. Everything else is metadata.
//!
//! A shelf file carries a schema version; a file newer than
//! [`SHELF_VERSION`] is refused. Saving goes through a temporary file that is
//! renamed over the target.
use vstd::prelude::*;
use vstd::string::*;

use crate::config::VcsDefault;
use crate::fspath::{
    extension_replaced, from_root, law_extension, law_parent_and_file_name, matches_opt_path,
    opt_key, parent, parent_of, path_key, plain_parts, rooted, with_extension, PathKey,
};
use crate::paths::ShokaPaths;
use crate::seqs::{
    first_index, lemma_filter_selects, lemma_first_index, lemma_is_first_index, opt_ref_view,
    opt_view, selects, selects_at, views,
};
use crate::text::{
    clone_opt, clone_texts, decimal, decimal_of, has, lemma_split_at, lemma_split_whole,
    lemma_stands_between, lemma_stands_in_longer, lemma_told_in_order, list_has, opt_as_str,
    opt_str, opt_text, same_text, split, texts,
};

verus! {

/// Current schema version of the shelf file.
pub const SHELF_VERSION: u32 = 1;

/// One repository on the shelf.
#[derive(Debug, PartialEq, Eq)]
pub struct Repo {
    pub host: String,
    pub owner: String,
    pub name: String,
    /// Where the checkout lives, when that is not for the layout to say.
    pub path: Option<String>,
    /// Version control system chosen for this repository.
    pub vcs: Option<VcsDefault>,
    pub tags: Vec<String>,
    pub note: Option<String>,
}

/// The contents of a [`Repo`].
#[verifier::ext_equal]
pub struct RepoView {
    pub host: Seq<char>,
    pub owner: Seq<char>,
    pub name: Seq<char>,
    pub path: Option<Seq<char>>,
    pub vcs: Option<VcsDefault>,
    pub tags: Seq<Seq<char>>,
    pub note: Option<Seq<char>>,
}

/// What tells one row from another.
#[verifier::ext_equal]
pub struct RowKey {
    pub host: Seq<char>,
    pub owner: Seq<char>,
    pub name: Seq<char>,
    pub path: Option<PathKey>,
}

/// The key with these parts.
pub open spec fn row_key(
    host: Seq<char>,
    owner: Seq<char>,
    name: Seq<char>,
    path: Option<Seq<char>>,
) -> RowKey {
    RowKey { host, owner, name, path: opt_key(path) }
}

impl RowKey {
    /// The key names this remote, wherever it is checked out.
    pub open spec fn of_remote(self, host: Seq<char>, owner: Seq<char>, name: Seq<char>) -> bool {
        self.host == host && self.owner == owner && self.name == name
    }
}

impl View for Repo {
    type V = RepoView;

    open spec fn view(&self) -> RepoView {
        RepoView {
            host: self.host@,
            owner: self.owner@,
            name: self.name@,
            path: opt_text(self.path),
            vcs: self.vcs,
            tags: texts(self.tags@),
            note: opt_text(self.note),
        }
    }
}

impl RepoView {
    /// The repository's identity.
    pub open spec fn key(self) -> RowKey {
        row_key(self.host, self.owner, self.name, self.path)
    }

    /// `host/owner/name`.
    pub open spec fn slug(self) -> Seq<char> {
        slug_of(self.host, self.owner, self.name)
    }

    /// Whether the repository carries every wanted tag.
    pub open spec fn has_all_tags(self, wanted: Seq<Seq<char>>) -> bool {
        forall|i: int| 0 <= i < wanted.len() ==> self.tags.contains(#[trigger] wanted[i])
    }
}

/// `host/owner/name`.
pub open spec fn slug_of(host: Seq<char>, owner: Seq<char>, name: Seq<char>) -> Seq<char> {
    host + "/"@ + owner + "/"@ + name
}

/// `host/owner/name`.
pub fn slug_text(host: &str, owner: &str, name: &str) -> (r: String)
    ensures
        r@ == slug_of(host@, owner@, name@),
{
    host.to_owned().concat("/").concat(owner).concat("/").concat(name)
}

impl Clone for Repo {
    fn clone(&self) -> (r: Self)
        ensures
            r@ == self@,
    {
        Repo {
            host: self.host.clone(),
            owner: self.owner.clone(),
            name: self.name.clone(),
            path: clone_opt(&self.path),
            vcs: self.vcs,
            tags: clone_texts(&self.tags),
            note: clone_opt(&self.note),
        }
    }
}

impl Repo {
    /// A repository with its identity and no metadata.
    pub fn new(host: &str, owner: &str, name: &str) -> (r: Self)
        ensures
            r@ == (RepoView {
                host: host@,
                owner: owner@,
                name: name@,
                path: None,
                vcs: None,
                tags: Seq::empty(),
                note: None,
            }),
    {
        let r = Repo {
            host: host.to_owned(),
            owner: owner.to_owned(),
            name: name.to_owned(),
            path: None,
            vcs: None,
            tags: Vec::new(),
            note: None,
        };
        assert(texts(r.tags@) =~= Seq::<Seq<char>>::empty());
        r
    }

    /// The same repository, pinned to `path`.
    pub fn with_path(self, path: String) -> (r: Self)
        ensures
            r@ == (RepoView { path: Some(path@), ..self@ }),
    {
        let Repo { host, owner, name, path: _, vcs, tags, note } = self;
        Repo { host, owner, name, path: Some(path), vcs, tags, note }
    }

    /// `host/owner/name`, as shown in output and messages.
    pub fn slug(&self) -> (r: String)
        ensures
            r@ == self@.slug(),
    {
        slug_text(self.host.as_str(), self.owner.as_str(), self.name.as_str())
    }

    /// Whether this is the row with these parts of the identity.
    fn is_row(&self, host: &str, owner: &str, name: &str, path: Option<&str>) -> (r: bool)
        ensures
            r == (self@.key() == row_key(host@, owner@, name@, opt_str(path))),
    {
        same_text(self.host.as_str(), host) && same_text(self.owner.as_str(), owner) && same_text(
            self.name.as_str(),
            name,
        ) && matches_opt_path(&self.path, path)
    }

    /// Whether the repository is a checkout of this remote.
    fn is_remote(&self, host: &str, owner: &str, name: &str) -> (r: bool)
        ensures
            r == self@.key().of_remote(host@, owner@, name@),
    {
        same_text(self.host.as_str(), host) && same_text(self.owner.as_str(), owner) && same_text(
            self.name.as_str(),
            name,
        )
    }
}

/// Whether the repository carries every wanted tag; with no tag wanted, every
/// repository does.
pub fn has_all_tags(repo: &Repo, wanted: &[String]) -> (r: bool)
    ensures
        r == repo@.has_all_tags(texts(wanted@)),
{
    let ghost w = texts(wanted@);
    let mut i: usize = 0;
    while i < wanted.len()
        invariant
            w == texts(wanted@),
            i <= wanted@.len(),
            forall|k: int| 0 <= k < i ==> repo@.tags.contains(#[trigger] w[k]),
        decreases wanted@.len() - i,
    {
        assert(w[i as int] == wanted@[i as int]@);
        if !list_has(&repo.tags, wanted[i].as_str()) {
            return false;
        }
        i = i + 1;
    }
    true
}

/// The shelf on disk: a schema version and the rows in insertion order.
#[derive(Debug)]
pub struct Shelf {
    pub version: u32,
    pub repos: Vec<Repo>,
}

/// The contents of a [`Shelf`].
#[verifier::ext_equal]
pub struct ShelfView {
    pub version: u32,
    pub rows: Seq<RepoView>,
}

impl View for Shelf {
    type V = ShelfView;

    open spec fn view(&self) -> ShelfView {
        ShelfView { version: self.version, rows: views(self.repos@) }
    }
}

impl ShelfView {
    /// The empty shelf of this build.
    pub open spec fn fresh() -> ShelfView {
        ShelfView { version: SHELF_VERSION, rows: Seq::empty() }
    }

    /// No identity occurs twice.
    pub open spec fn distinct(self) -> bool {
        forall|i: int, j: int|
            #![trigger self.rows[i], self.rows[j]]
            0 <= i < j < self.rows.len() ==> self.rows[i].key() != self.rows[j].key()
    }

    /// The position of the first checkout of a remote, or the length.
    pub open spec fn remote_index(self, host: Seq<char>, owner: Seq<char>, name: Seq<char>) -> int {
        first_index(self.rows, |r: RepoView| r.key().of_remote(host, owner, name))
    }

    /// The position of the row with an identity, or the length.
    pub open spec fn row_index(self, key: RowKey) -> int {
        first_index(self.rows, |r: RepoView| r.key() == key)
    }

    /// The row at a position, if it is one.
    pub open spec fn at(self, i: int) -> Option<RepoView> {
        if 0 <= i < self.rows.len() {
            Some(self.rows[i])
        } else {
            None
        }
    }

    /// The shelf without the row at a position; the same shelf where there is
    /// none.
    pub open spec fn without(self, i: int) -> ShelfView {
        if 0 <= i < self.rows.len() {
            ShelfView { rows: self.rows.remove(i), ..self }
        } else {
            self
        }
    }

    /// The shelf with one more row.
    pub open spec fn with(self, repo: RepoView) -> ShelfView {
        ShelfView { rows: self.rows.push(repo), ..self }
    }

    /// The rows that carry every wanted tag, in order.
    pub open spec fn tagged(self, wanted: Seq<Seq<char>>) -> Seq<RepoView> {
        self.rows.filter(|r: RepoView| r.has_all_tags(wanted))
    }
}

/// Why a shelf operation was refused.
#[derive(Debug)]
pub enum ShelfError {
    /// The row's identity is on the shelf already; holds the slug.
    Duplicate(String),
    /// The file at this path has a newer schema version than this build knows.
    Newer { path: String, version: u32 },
}

impl ShelfError {
    /// The text of the message.
    pub open spec fn text(self) -> Seq<char> {
        match self {
            ShelfError::Duplicate(slug) => "repo "@ + slug@ + " already on the shelf"@,
            ShelfError::Newer { path, version } => "shelf at "@ + path@ + " has schema version "@
                + decimal(version as nat) + ", newer than this build's "@ + decimal(
                SHELF_VERSION as nat,
            ) + " — upgrade shoka"@,
        }
    }

    /// The message shown to the user.
    pub fn message(&self) -> (r: String)
        ensures
            r@ == self.text(),
    {
        match self {
            ShelfError::Duplicate(slug) => "repo ".to_owned().concat(slug.as_str()).concat(
                " already on the shelf",
            ),
            ShelfError::Newer { path, version } => "shelf at ".to_owned().concat(
                path.as_str(),
            ).concat(" has schema version ").concat(decimal_of(*version as u64).as_str()).concat(
                ", newer than this build's ",
            ).concat(decimal_of(SHELF_VERSION as u64).as_str()).concat(" — upgrade shoka"),
        }
    }
}

/// How a file is replaced: the directory is made, the contents go to `temp`,
/// and `temp` is renamed over `target`.
#[derive(Debug)]
pub struct SavePlan {
    pub dir: Option<String>,
    pub temp: String,
    pub target: String,
}

impl SavePlan {
    /// The plan to replace `target` by way of its sibling with extension `ext`.
    pub open spec fn replaces(self, target: Seq<char>, ext: Seq<char>) -> bool {
        &&& opt_text(self.dir) == parent_of(target)
        &&& self.temp@ == extension_replaced(target, ext)
        &&& self.target@ == target
    }
}

/// The plan to replace `target` by way of its sibling with extension `ext`.
pub fn save_plan(target: &str, ext: &str) -> (r: SavePlan)
    ensures
        r.replaces(target@, ext@),
{
    SavePlan {
        dir: parent(target),
        temp: with_extension(target, ext),
        target: target.to_owned(),
    }
}

impl Default for Shelf {
    fn default() -> (r: Self)
        ensures
            r@ == ShelfView::fresh(),
    {
        let r = Shelf { version: SHELF_VERSION, repos: Vec::new() };
        assert(views(r.repos@) =~= Seq::<RepoView>::empty());
        r
    }
}

/// Whether `r` is what loading the shelf from a file gives, for what the file
/// holds. Without a file it is the fresh one; a file of a newer schema is refused;
/// any other is taken as it is.
pub open spec fn shelf_loads(
    path: Seq<char>,
    contents: Option<Shelf>,
    r: Result<Shelf, ShelfError>,
) -> bool {
    match contents {
        None => r matches Ok(s) && s@ == ShelfView::fresh(),
        Some(c) => if c.version > SHELF_VERSION {
            r matches Err(ShelfError::Newer { path: p, version }) && p@ == path && version
                == c.version
        } else {
            r == Ok::<Shelf, ShelfError>(c)
        },
    }
}

impl Shelf {
    /// The shelf read from `paths.state_file()`; see [`Shelf::load_from`].
    pub fn load(paths: &ShokaPaths, contents: Option<Shelf>) -> (r: Result<Shelf, ShelfError>)
        ensures
            shelf_loads(paths.state_file_text(), contents, r),
    {
        let file = paths.state_file();
        Self::load_from(file.as_str(), contents)
    }

    /// The shelf that the file at `path` holds. Without a file it is the fresh
    /// one; a file of a newer schema is refused; any other is taken as it is.
    pub fn load_from(path: &str, contents: Option<Shelf>) -> (r: Result<Shelf, ShelfError>)
        ensures
            shelf_loads(path@, contents, r),
    {
        match contents {
            None => Ok(Shelf::default()),
            Some(c) => {
                if c.version > SHELF_VERSION {
                    Err(ShelfError::Newer { path: path.to_owned(), version: c.version })
                } else {
                    Ok(c)
                }
            },
        }
    }

    /// How the shelf is saved to `paths.state_file()`.
    pub fn save(&self, paths: &ShokaPaths) -> (r: SavePlan)
        ensures
            r.replaces(paths.state_file_text(), "toml.tmp"@),
    {
        let file = paths.state_file();
        self.save_to(file.as_str())
    }

    /// How the shelf is saved to `path`: by way of a sibling `*.toml.tmp`.
    pub fn save_to(&self, path: &str) -> (r: SavePlan)
        ensures
            r.replaces(path@, "toml.tmp"@),
    {
        save_plan(path, "toml.tmp")
    }

    /// The position of the first checkout of a remote.
    fn position_of_remote(&self, host: &str, owner: &str, name: &str) -> (r: usize)
        ensures
            r == self@.remote_index(host@, owner@, name@),
            r <= self.repos@.len(),
    {
        let ghost p = |r: RepoView| r.key().of_remote(host@, owner@, name@);
        let mut i: usize = 0;
        while i < self.repos.len()
            invariant
                p == (|r: RepoView| r.key().of_remote(host@, owner@, name@)),
                i <= self.repos@.len(),
                forall|j: int| 0 <= j < i ==> !p(#[trigger] self@.rows[j]),
            decreases self.repos@.len() - i,
        {
            assert(self@.rows[i as int] == self.repos@[i as int]@);
            if self.repos[i].is_remote(host, owner, name) {
                proof {
                    lemma_is_first_index(self@.rows, p, i as int);
                }
                return i;
            }
            i = i + 1;
        }
        proof {
            lemma_is_first_index(self@.rows, p, i as int);
        }
        i
    }

    /// The position of the row with an identity.
    fn position_of_row(&self, host: &str, owner: &str, name: &str, path: Option<&str>) -> (r: usize)
        ensures
            r == self@.row_index(row_key(host@, owner@, name@, opt_str(path))),
            r <= self.repos@.len(),
    {
        let ghost key = row_key(host@, owner@, name@, opt_str(path));
        let ghost p = |r: RepoView| r.key() == key;
        let mut i: usize = 0;
        while i < self.repos.len()
            invariant
                key == row_key(host@, owner@, name@, opt_str(path)),
                p == (|r: RepoView| r.key() == key),
                i <= self.repos@.len(),
                forall|j: int| 0 <= j < i ==> !p(#[trigger] self@.rows[j]),
            decreases self.repos@.len() - i,
        {
            assert(self@.rows[i as int] == self.repos@[i as int]@);
            if self.repos[i].is_row(host, owner, name, path) {
                proof {
                    lemma_is_first_index(self@.rows, p, i as int);
                }
                return i;
            }
            i = i + 1;
        }
        proof {
            lemma_is_first_index(self@.rows, p, i as int);
        }
        i
    }

    /// The first checkout of a remote, at whatever path.
    pub fn find(&self, host: &str, owner: &str, name: &str) -> (r: Option<&Repo>)
        ensures
            opt_ref_view(r) == self@.at(self@.remote_index(host@, owner@, name@)),
    {
        let i: usize = self.position_of_remote(host, owner, name);
        if i < self.repos.len() {
            Some(&self.repos[i])
        } else {
            None
        }
    }

    /// The row with this identity.
    pub fn find_by_path(&self, host: &str, owner: &str, name: &str, path: Option<&str>) -> (r:
        Option<&Repo>)
        ensures
            opt_ref_view(r) == self@.at(
                self@.row_index(row_key(host@, owner@, name@, opt_str(path))),
            ),
    {
        let i: usize = self.position_of_row(host, owner, name, path);
        if i < self.repos.len() {
            Some(&self.repos[i])
        } else {
            None
        }
    }

    /// The first checkout of a remote, to be changed in place.
    pub fn find_mut(&mut self, host: &str, owner: &str, name: &str) -> (r: Option<&mut Repo>)
        ensures
            ({
                let i = old(self)@.remote_index(host@, owner@, name@);
                match r {
                    Some(e) => {
                        &&& 0 <= i < old(self)@.rows.len()
                        &&& e@ == old(self)@.rows[i]
                        &&& final(self)@ == (ShelfView {
                            rows: old(self)@.rows.update(i, final(e)@),
                            ..old(self)@
                        })
                    },
                    None => i == old(self)@.rows.len() && final(self)@ == old(self)@,
                }
            }),
    {
        let i: usize = self.position_of_remote(host, owner, name);
        if i < self.repos.len() {
            let ghost rows = self.repos@;
            let e = &mut self.repos[i];
            assert(views(rows.update(i as int, *final(e))) =~= views(rows).update(
                i as int,
                final(e)@,
            ));
            Some(e)
        } else {
            None
        }
    }

    /// The row with this identity, to be changed in place.
    pub fn find_mut_by_path(
        &mut self,
        host: &str,
        owner: &str,
        name: &str,
        path: Option<&str>,
    ) -> (r: Option<&mut Repo>)
        ensures
            ({
                let i = old(self)@.row_index(row_key(host@, owner@, name@, opt_str(path)));
                match r {
                    Some(e) => {
                        &&& 0 <= i < old(self)@.rows.len()
                        &&& e@ == old(self)@.rows[i]
                        &&& final(self)@ == (ShelfView {
                            rows: old(self)@.rows.update(i, final(e)@),
                            ..old(self)@
                        })
                    },
                    None => i == old(self)@.rows.len() && final(self)@ == old(self)@,
                }
            }),
    {
        let i: usize = self.position_of_row(host, owner, name, path);
        if i < self.repos.len() {
            let ghost rows = self.repos@;
            let e = &mut self.repos[i];
            assert(views(rows.update(i as int, *final(e))) =~= views(rows).update(
                i as int,
                final(e)@,
            ));
            Some(e)
        } else {
            None
        }
    }

    /// Puts a new row at the end of the shelf. Refused, with the shelf
    /// unchanged, when its identity is on the shelf already.
    pub fn add(&mut self, repo: Repo) -> (r: Result<(), ShelfError>)
        ensures
            if old(self)@.row_index(repo@.key()) < old(self)@.rows.len() {
                &&& r matches Err(ShelfError::Duplicate(slug)) && slug@ == repo@.slug()
                &&& final(self)@ == old(self)@
            } else {
                &&& r is Ok
                &&& final(self)@ == old(self)@.with(repo@)
            },
            old(self)@.distinct() ==> final(self)@.distinct(),
    {
        let i: usize = self.position_of_row(
            repo.host.as_str(),
            repo.owner.as_str(),
            repo.name.as_str(),
            opt_as_str(&repo.path),
        );
        if i < self.repos.len() {
            return Err(ShelfError::Duplicate(repo.slug()));
        }
        let ghost was = self@;
        let ghost one = repo@;
        self.repos.push(repo);
        proof {
            assert(self@.rows =~= was.rows.push(one));
            lemma_first_index(was.rows, |r: RepoView| r.key() == one.key());
        }
        Ok(())
    }

    /// Takes the first checkout of a remote off the shelf.
    pub fn remove(&mut self, host: &str, owner: &str, name: &str) -> (r: Option<Repo>)
        ensures
            opt_view(r) == old(self)@.at(old(self)@.remote_index(host@, owner@, name@)),
            final(self)@ == old(self)@.without(old(self)@.remote_index(host@, owner@, name@)),
    {
        let i: usize = self.position_of_remote(host, owner, name);
        if i < self.repos.len() {
            let ghost rows = self.repos@;
            let e = self.repos.remove(i);
            assert(views(rows.remove(i as int)) =~= views(rows).remove(i as int));
            Some(e)
        } else {
            None
        }
    }

    /// Takes the row with this identity off the shelf.
    pub fn remove_by_path(
        &mut self,
        host: &str,
        owner: &str,
        name: &str,
        path: Option<&str>,
    ) -> (r: Option<Repo>)
        ensures
            ({
                let i = old(self)@.row_index(row_key(host@, owner@, name@, opt_str(path)));
                &&& opt_view(r) == old(self)@.at(i)
                &&& final(self)@ == old(self)@.without(i)
            }),
    {
        let i: usize = self.position_of_row(host, owner, name, path);
        if i < self.repos.len() {
            let ghost rows = self.repos@;
            let e = self.repos.remove(i);
            assert(views(rows.remove(i as int)) =~= views(rows).remove(i as int));
            Some(e)
        } else {
            None
        }
    }

    /// The rows that carry every wanted tag, in shelf order.
    pub fn filter_by_tags(&self, wanted: &[String]) -> (r: Vec<&Repo>)
        ensures
            views(r@) == self@.tagged(texts(wanted@)),
    {
        let ghost p = |r: RepoView| r.has_all_tags(texts(wanted@));
        let mut out: Vec<&Repo> = Vec::new();
        let mut i: usize = 0;
        reveal(Seq::filter);
        assert(views(out@) =~= self@.rows.take(0).filter(p));
        while i < self.repos.len()
            invariant
                p == (|r: RepoView| r.has_all_tags(texts(wanted@))),
                i <= self.repos@.len(),
                views(out@) == self@.rows.take(i as int).filter(p),
            decreases self.repos@.len() - i,
        {
            reveal(Seq::filter);
            let repo = &self.repos[i];
            assert(self@.rows.take(i + 1).drop_last() =~= self@.rows.take(i as int));
            assert(self@.rows.take(i + 1).last() == repo@);
            if has_all_tags(repo, wanted) {
                let ghost was = views(out@);
                out.push(repo);
                assert(views(out@) =~= was.push(repo@));
            }
            i = i + 1;
        }
        assert(self@.rows.take(i as int) =~= self@.rows);
        out
    }

    /// The number of rows.
    pub fn len(&self) -> (r: usize)
        ensures
            r == self@.rows.len(),
    {
        self.repos.len()
    }

    /// Whether there is no row.
    pub fn is_empty(&self) -> (r: bool)
        ensures
            r == (self@.rows.len() == 0),
    {
        self.repos.len() == 0
    }
}

/// A row that was added is found under its identity.
pub proof fn law_added_row_is_found(shelf: ShelfView, repo: RepoView)
    requires
        shelf.row_index(repo.key()) == shelf.rows.len(),
    ensures
        shelf.with(repo).at(shelf.with(repo).row_index(repo.key())) == Some(repo),
{
    let p = |r: RepoView| r.key() == repo.key();
    let next = shelf.with(repo);
    lemma_first_index(shelf.rows, p);
    assert forall|j: int| 0 <= j < shelf.rows.len() implies !p(#[trigger] next.rows[j]) by {
        assert(next.rows[j] == shelf.rows[j]);
    }
    lemma_is_first_index(next.rows, p, shelf.rows.len() as int);
}

/// Removing a row that was just added gives the shelf back.
pub proof fn law_remove_undoes_add(shelf: ShelfView, repo: RepoView)
    requires
        shelf.row_index(repo.key()) == shelf.rows.len(),
    ensures
        shelf.with(repo).without(shelf.with(repo).row_index(repo.key())) == shelf,
{
    let p = |r: RepoView| r.key() == repo.key();
    let next = shelf.with(repo);
    lemma_first_index(shelf.rows, p);
    assert forall|j: int| 0 <= j < shelf.rows.len() implies !p(#[trigger] next.rows[j]) by {
        assert(next.rows[j] == shelf.rows[j]);
    }
    lemma_is_first_index(next.rows, p, shelf.rows.len() as int);
    assert(next.rows.remove(shelf.rows.len() as int) =~= shelf.rows);
}

/// Adding a row leaves every other identity as it was.
pub proof fn law_add_keeps_other_rows(shelf: ShelfView, repo: RepoView, key: RowKey)
    requires
        key != repo.key(),
    ensures
        shelf.with(repo).at(shelf.with(repo).row_index(key)) == shelf.at(shelf.row_index(key)),
{
    let p = |r: RepoView| r.key() == key;
    let next = shelf.with(repo);
    let i = shelf.row_index(key);
    lemma_first_index(shelf.rows, p);
    assert forall|j: int| 0 <= j < i implies !p(#[trigger] next.rows[j]) by {
        assert(next.rows[j] == shelf.rows[j]);
    }
    if i < shelf.rows.len() {
        assert(next.rows[i] == shelf.rows[i]);
        lemma_is_first_index(next.rows, p, i);
    } else {
        assert(next.rows[i] == repo);
        lemma_is_first_index(next.rows, p, i + 1);
    }
}

/// Removing a row from a shelf on which no identity occurs twice takes that
/// identity off the shelf, and keeps identities distinct.
pub proof fn law_removed_row_is_gone(shelf: ShelfView, key: RowKey)
    requires
        shelf.distinct(),
    ensures
        ({
            let next = shelf.without(shelf.row_index(key));
            &&& next.at(next.row_index(key)) is None
            &&& next.distinct()
        }),
{
    let p = |r: RepoView| r.key() == key;
    let i = shelf.row_index(key);
    let next = shelf.without(i);
    lemma_first_index(shelf.rows, p);
    lemma_first_index(next.rows, p);
    if i < shelf.rows.len() {
        let k = next.row_index(key);
        if k < next.rows.len() {
            let m = if k < i {
                k
            } else {
                k + 1
            };
            assert(next.rows[k] == shelf.rows[m]);
            assert(shelf.rows[i].key() == key);
        }
        assert forall|a: int, b: int|
            #![trigger next.rows[a], next.rows[b]]
            0 <= a < b < next.rows.len() implies next.rows[a].key() != next.rows[b].key() by {
            let a2 = if a < i {
                a
            } else {
                a + 1
            };
            let b2 = if b < i {
                b
            } else {
                b + 1
            };
            assert(next.rows[a] == shelf.rows[a2]);
            assert(next.rows[b] == shelf.rows[b2]);
        }
    }
}

/// Removing one row leaves every other identity as it was, other checkouts of
/// the same remote among them.
pub proof fn law_remove_keeps_other_rows(shelf: ShelfView, key: RowKey, other: RowKey)
    requires
        key != other,
    ensures
        ({
            let next = shelf.without(shelf.row_index(key));
            next.at(next.row_index(other)) == shelf.at(shelf.row_index(other))
        }),
{
    let p = |r: RepoView| r.key() == key;
    let q = |r: RepoView| r.key() == other;
    let i = shelf.row_index(key);
    let next = shelf.without(i);
    lemma_first_index(shelf.rows, p);
    lemma_first_index(shelf.rows, q);
    if i < shelf.rows.len() {
        let k = shelf.row_index(other);
        let m = if k <= i {
            k
        } else {
            k - 1
        };
        assert(shelf.rows[i].key() == key);
        assert forall|j: int| 0 <= j < m implies !q(#[trigger] next.rows[j]) by {
            let j2 = if j < i {
                j
            } else {
                j + 1
            };
            assert(next.rows[j] == shelf.rows[j2]);
        }
        if k < shelf.rows.len() {
            assert(next.rows[m] == shelf.rows[k]);
        }
        lemma_is_first_index(next.rows, q, m);
    }
}

/// The fresh shelf holds no identity twice.
pub proof fn law_fresh_shelf_is_distinct()
    ensures
        ShelfView::fresh().distinct(),
{
}

/// A filter on more tags keeps no row that one on fewer tags drops, and
/// without wanted tags every row is kept. One on a single tag asks whether the row
/// carries that tag.
pub proof fn law_tags_narrow(repo: RepoView, wanted: Seq<Seq<char>>, more: Seq<Seq<char>>)
    ensures
        repo.has_all_tags(wanted + more) == (repo.has_all_tags(wanted) && repo.has_all_tags(more)),
        repo.has_all_tags(Seq::empty()),
        forall|tag: Seq<char>| #[trigger]
            repo.tags.contains(tag) == repo.has_all_tags(seq![tag]),
{
    assert forall|tag: Seq<char>| #[trigger] repo.tags.contains(tag) == repo.has_all_tags(
        seq![tag],
    ) by {
        assert(seq![tag][0] == tag);
    }
    let both = wanted + more;
    if repo.has_all_tags(both) {
        assert forall|i: int| 0 <= i < wanted.len() implies repo.tags.contains(
            #[trigger] wanted[i],
        ) by {
            assert(both[i] == wanted[i]);
        }
        assert forall|i: int| 0 <= i < more.len() implies repo.tags.contains(#[trigger] more[i]) by {
            assert(both[wanted.len() + i] == more[i]);
        }
    }
    if repo.has_all_tags(wanted) && repo.has_all_tags(more) {
        assert forall|i: int| 0 <= i < both.len() implies repo.tags.contains(#[trigger] both[i]) by {
            if i < wanted.len() {
                assert(both[i] == wanted[i]);
            } else {
                assert(both[i] == more[i - wanted.len()]);
            }
        }
    }
}

/// The shelf is saved to the file that it is loaded from, and one that the file
/// gives back as it was saved is loaded as it was: with the same version and the
/// same rows, in order.
pub proof fn law_saved_shelf_is_loaded(
    shelf: Shelf,
    paths: ShokaPaths,
    plan: SavePlan,
    r: Result<Shelf, ShelfError>,
)
    requires
        shelf.version <= SHELF_VERSION,
        plan.replaces(paths.state_file_text(), "toml.tmp"@),
        shelf_loads(paths.state_file_text(), Some(shelf), r),
    ensures
        plan.target@ == paths.state_file_text(),
        r == Ok::<Shelf, ShelfError>(shelf),
{
}

/// Whether a row carries each of these tags.
pub open spec fn carries(wanted: Seq<Seq<char>>) -> spec_fn(RepoView) -> bool {
    |r: RepoView| forall|t: Seq<char>| #[trigger] wanted.contains(t) ==> r.tags.contains(t)
}

/// A filter by tags selects the rows that carry every tag wanted: all of them, in
/// shelf order, and no others.
pub proof fn law_tag_filter(shelf: ShelfView, wanted: Seq<Seq<char>>)
    ensures
        selects(shelf.rows, carries(wanted), shelf.tagged(wanted)),
{
    let p = |r: RepoView| r.has_all_tags(wanted);
    let q = carries(wanted);
    let out = shelf.tagged(wanted);
    let at = lemma_filter_selects(shelf.rows, p);
    assert forall|r: RepoView| p(r) == #[trigger] q(r) by {
        if p(r) {
            assert forall|t: Seq<char>| #[trigger] wanted.contains(t) implies r.tags.contains(t) by {
                let i = choose|i: int| 0 <= i < wanted.len() && wanted[i] == t;
                assert(r.tags.contains(wanted[i]));
            }
        }
        if q(r) {
            assert forall|i: int| 0 <= i < wanted.len() implies r.tags.contains(
                #[trigger] wanted[i],
            ) by {
                assert(wanted.contains(wanted[i]));
            }
        }
    }
    assert(selects_at(shelf.rows, q, out, at));
}

/// Two rows are the same exactly when their host, owner and name are and they have
/// no path both, or paths with the same components from the same start.
pub proof fn law_identity_of_a_row(a: RepoView, b: RepoView)
    ensures
        (a.key() == b.key()) == {
            &&& a.host == b.host && a.owner == b.owner && a.name == b.name
            &&& a.path is Some == b.path is Some
            &&& a.path is Some ==> rooted(a.path->0) == rooted(b.path->0) && path_key(
                a.path->0,
            ).parts == path_key(b.path->0).parts
        },
{
}

/// A slug is `host/owner/name`: where none of the three holds a slash, they are the
/// pieces between its slashes.
pub proof fn law_slug_reads_back(row: RepoView)
    requires
        !row.host.contains('/'),
        !row.owner.contains('/'),
        !row.name.contains('/'),
    ensures
        split(row.slug(), '/') == seq![row.host, row.owner, row.name],
{
    reveal_strlit("/");
    let two = row.owner + "/"@ + row.name;
    assert(row.slug() =~= row.host.push('/') + two);
    assert(two =~= row.owner.push('/') + row.name);
    lemma_split_at(row.host, '/', two);
    lemma_split_at(row.owner, '/', row.name);
    lemma_split_whole(row.host, '/');
    lemma_split_whole(row.owner, '/');
    lemma_split_whole(row.name, '/');
    assert(split(row.slug(), '/') =~= seq![row.host, row.owner, row.name]);
}

/// A remote is found at its first row, whatever that row's path, and is not found
/// exactly when no row is of it.
pub proof fn law_first_checkout(
    shelf: ShelfView,
    host: Seq<char>,
    owner: Seq<char>,
    name: Seq<char>,
)
    ensures
        ({
            let i = shelf.remote_index(host, owner, name);
            &&& 0 <= i <= shelf.rows.len()
            &&& i < shelf.rows.len() ==> {
                let r = shelf.rows[i];
                r.host == host && r.owner == owner && r.name == name && shelf.at(i) == Some(r)
            }
            &&& forall|j: int|
                0 <= j < i ==> !((#[trigger] shelf.rows[j]).host == host && shelf.rows[j].owner
                    == owner && shelf.rows[j].name == name)
            &&& i == shelf.rows.len() ==> shelf.at(i) is None
        }),
{
    lemma_first_index(shelf.rows, |r: RepoView| r.key().of_remote(host, owner, name));
    let p = |r: RepoView| r.key().of_remote(host, owner, name);
    let i = shelf.remote_index(host, owner, name);
    assert forall|j: int| 0 <= j < i implies !((#[trigger] shelf.rows[j]).host == host
        && shelf.rows[j].owner == owner && shelf.rows[j].name == name) by {
        assert(!p(shelf.rows[j]));
    }
}

/// A row is found under its identity where it first stands, and is not found exactly
/// when no row has that identity.
pub proof fn law_row_under_its_identity(shelf: ShelfView, key: RowKey)
    ensures
        ({
            let i = shelf.row_index(key);
            &&& 0 <= i <= shelf.rows.len()
            &&& i < shelf.rows.len() ==> shelf.rows[i].key() == key && shelf.at(i) == Some(
                shelf.rows[i],
            )
            &&& forall|j: int| 0 <= j < i ==> (#[trigger] shelf.rows[j]).key() != key
            &&& i == shelf.rows.len() ==> shelf.at(i) is None
        }),
{
    lemma_first_index(shelf.rows, |r: RepoView| r.key() == key);
    let p = |r: RepoView| r.key() == key;
    assert forall|j: int| 0 <= j < shelf.row_index(key) implies (#[trigger] shelf.rows[j]).key()
        != key by {
        assert(!p(shelf.rows[j]));
    }
}

/// The rows keep their order: a new one goes behind all others, and one that leaves
/// lets those behind it move up by one. Neither changes the version.
pub proof fn law_rows_keep_their_order(shelf: ShelfView, repo: RepoView, i: int)
    requires
        0 <= i < shelf.rows.len(),
    ensures
        shelf.with(repo).rows.len() == shelf.rows.len() + 1,
        shelf.with(repo).rows.last() == repo,
        shelf.with(repo).rows.drop_last() == shelf.rows,
        shelf.with(repo).version == shelf.version,
        shelf.without(i).rows.len() == shelf.rows.len() - 1,
        forall|j: int| 0 <= j < i ==> #[trigger] shelf.without(i).rows[j] == shelf.rows[j],
        forall|j: int|
            i <= j < shelf.rows.len() - 1 ==> #[trigger] shelf.without(i).rows[j] == shelf.rows[j
                + 1],
        shelf.without(i).version == shelf.version,
{
    assert(shelf.with(repo).rows.drop_last() =~= shelf.rows);
}

/// Without a file the shelf is empty and of this build's version. A file of a newer
/// version is refused, under its path and its version, and no other is.
pub proof fn law_what_a_file_loads_as(
    path: Seq<char>,
    contents: Option<Shelf>,
    r: Result<Shelf, ShelfError>,
)
    requires
        shelf_loads(path, contents, r),
    ensures
        contents is None ==> r is Ok && r->Ok_0@.rows.len() == 0 && r->Ok_0.version
            == SHELF_VERSION,
        r is Err == (contents is Some && contents->0.version > SHELF_VERSION),
        r is Err ==> r->Err_0 is Newer && r->Err_0->path@ == path && r->Err_0->version
            == contents->0.version,
        r is Ok && contents is Some ==> r->Ok_0 == contents->0,
{
}

/// A file is replaced by way of another: for a file with the extension `toml`, both
/// stand in the same directory, which is the one that is made, and they differ in
/// what follows the name.
pub proof fn law_saved_by_way_of_a_sibling(
    plan: SavePlan,
    dir: Seq<Seq<char>>,
    stem: Seq<char>,
    ext: Seq<char>,
)
    requires
        plain_parts(dir),
        stem.len() > 0,
        !stem.contains('/'),
        plan.replaces(from_root(dir.push(stem + ".toml"@)), ext),
    ensures
        opt_text(plan.dir) == Some(from_root(dir)),
        plan.target@ == from_root(dir.push(stem + ".toml"@)),
        plan.temp@ == from_root(dir.push(stem + "."@ + ext)),
{
    reveal_strlit(".toml");
    reveal_strlit("toml");
    reveal_strlit(".");
    let name = stem + ".toml"@;
    assert(".toml"@ =~= "."@ + "toml"@) by {
        assert(".toml"@[0] == '.' && ".toml"@[1] == 't' && ".toml"@[2] == 'o' && ".toml"@[3] == 'm'
            && ".toml"@[4] == 'l');
        assert("toml"@[0] == 't' && "toml"@[1] == 'o' && "toml"@[2] == 'm' && "toml"@[3] == 'l');
    }
    assert(name =~= stem + "."@ + "toml"@);
    assert(!name.contains('/')) by {
        assert forall|i: int| 0 <= i < name.len() implies name[i] != '/' by {
            if i < stem.len() {
                assert(stem.contains(stem[i]));
            } else {
                let k = i - stem.len();
                assert(name[i] == ".toml"@[k]);
                assert(".toml"@[0] == '.' && ".toml"@[1] == 't' && ".toml"@[2] == 'o'
                    && ".toml"@[3] == 'm' && ".toml"@[4] == 'l');
            }
        }
    }
    assert("toml"@[0] == 't' && "toml"@[1] == 'o' && "toml"@[2] == 'm' && "toml"@[3] == 'l');
    law_extension(dir, stem, "toml"@, ext);
    law_parent_and_file_name(dir, name);
}

/// What the shelf says of a refusal names the row, or the file and its version.
pub proof fn law_refusals_name_what_they_refuse(e: ShelfError)
    ensures
        e matches ShelfError::Duplicate(slug) ==> has(e.text(), slug@),
        e matches ShelfError::Newer { path, version } ==> has(
            e.text(),
            path@ + " has schema version "@ + decimal(version as nat),
        ),
{
    match e {
        ShelfError::Duplicate(slug) => {
            lemma_stands_between("repo "@, slug@, " already on the shelf"@);
        },
        ShelfError::Newer { path, version } => {
            let number = decimal(version as nat);
            let middle = " has schema version "@;
            let head = "shelf at "@ + path@ + middle + number;
            let told = path@ + middle + number;
            let build = decimal(SHELF_VERSION as nat);
            lemma_told_in_order("shelf at "@, path@, middle, number);
            lemma_stands_in_longer(head, ", newer than this build's "@, told);
            let more = head + ", newer than this build's "@;
            lemma_stands_in_longer(more, build, told);
            lemma_stands_in_longer(more + build, " — upgrade shoka"@, told);
        },
    }
}

} // verus!
