//! The cache: what was last seen of each checkout.
//!
//! Rows are keyed like the shelf's, by `(host, owner, name, path?)`. What git
//! reports belongs to one checkout; what GitHub reports belongs to the remote
//! and is shared by its checkouts.
//!
//! A row without a path comes from a file of an older schema. The first
//! refresh of a checkout claims such a row for its path.
use vstd::prelude::*;
use vstd::string::*;

use crate::fspath::{matches_opt_path, opt_key, path_key, rooted};
use crate::gh::{GhSnapshot, GhSnapshotView};
use crate::git_status::{GitStatusSnapshot, GitStatusView};
use crate::paths::ShokaPaths;
use crate::seqs::{
    first_index, lemma_first_index, lemma_is_first_index, opt_ref_view, opt_view, views,
};
use crate::state::{row_key, save_plan, slug_of, slug_text, Repo, RepoView, RowKey, SavePlan};
use crate::text::{
    clone_opt, decimal, decimal_of, has, law_decimal_reads_back,
    lemma_stands_in_longer, lemma_told_in_order, occurs_at, opt_as_str, opt_str, opt_text,
    same_text,
};

verus! {

/// The time in seconds since 1970; zero where the clock stands before that.
pub fn current_unix_secs(since_epoch: Option<u64>) -> (r: u64)
    ensures
        r == (match since_epoch {
            Some(secs) => secs,
            None => 0,
        }),
{
    match since_epoch {
        Some(secs) => secs,
        None => 0,
    }
}

/// Current schema version of the cache file.
pub const CACHE_VERSION: u32 = 4;

/// What was last seen of one checkout.
#[derive(Debug, Clone, PartialEq, Eq)]
pub struct RepoCache {
    pub host: String,
    pub owner: String,
    pub name: String,
    /// Where the checkout lives; absent in rows of an older schema.
    pub path: Option<String>,
    /// When the row was last refreshed, in seconds since the epoch.
    pub last_refreshed: Option<u64>,
    /// Local git state, where it was captured.
    pub git_status: Option<GitStatusSnapshot>,
    /// GitHub state, where it was captured.
    pub gh: Option<GhSnapshot>,
}

/// The contents of a [`RepoCache`].
#[verifier::ext_equal]
pub struct RepoCacheView {
    pub host: Seq<char>,
    pub owner: Seq<char>,
    pub name: Seq<char>,
    pub path: Option<Seq<char>>,
    pub last_refreshed: Option<u64>,
    pub git_status: Option<GitStatusView>,
    pub gh: Option<GhSnapshotView>,
}

impl View for RepoCache {
    type V = RepoCacheView;

    open spec fn view(&self) -> RepoCacheView {
        RepoCacheView {
            host: self.host@,
            owner: self.owner@,
            name: self.name@,
            path: opt_text(self.path),
            last_refreshed: self.last_refreshed,
            git_status: opt_view(self.git_status),
            gh: opt_view(self.gh),
        }
    }
}

impl RepoCacheView {
    /// A row that was never refreshed.
    pub open spec fn fresh(
        host: Seq<char>,
        owner: Seq<char>,
        name: Seq<char>,
        path: Option<Seq<char>>,
    ) -> RepoCacheView {
        RepoCacheView { host, owner, name, path, last_refreshed: None, git_status: None, gh: None }
    }

    /// The row's identity.
    pub open spec fn key(self) -> RowKey {
        row_key(self.host, self.owner, self.name, self.path)
    }

    /// The row was not refreshed in the `threshold` seconds before `now`. A
    /// timestamp ahead of `now` counts as just refreshed.
    pub open spec fn is_stale(self, threshold: u64, now: u64) -> bool {
        match self.last_refreshed {
            None => true,
            Some(ts) => now - ts > threshold,
        }
    }
}

impl RepoCache {
    /// A never-refreshed row without a path.
    pub fn new(host: &str, owner: &str, name: &str) -> (r: Self)
        ensures
            r@ == RepoCacheView::fresh(host@, owner@, name@, None),
    {
        Self::with_path(host, owner, name, None)
    }

    /// A never-refreshed row.
    pub fn with_path(host: &str, owner: &str, name: &str, path: Option<String>) -> (r: Self)
        ensures
            r@ == RepoCacheView::fresh(host@, owner@, name@, opt_text(path)),
    {
        RepoCache {
            host: host.to_owned(),
            owner: owner.to_owned(),
            name: name.to_owned(),
            path,
            last_refreshed: None,
            git_status: None,
            gh: None,
        }
    }

    /// `host/owner/name`.
    pub fn slug(&self) -> (r: String)
        ensures
            r@ == slug_of(self@.host, self@.owner, self@.name),
    {
        slug_text(self.host.as_str(), self.owner.as_str(), self.name.as_str())
    }

    /// Whether the row was not refreshed in the `threshold_secs` before `now`;
    /// one that was never refreshed is stale.
    pub fn is_stale(&self, threshold_secs: u64, now: u64) -> (r: bool)
        ensures
            r == self@.is_stale(threshold_secs, now),
    {
        match self.last_refreshed {
            None => true,
            Some(ts) => now.saturating_sub(ts) > threshold_secs,
        }
    }

    /// Whether this is the row with these parts of the identity.
    fn is_row(&self, host: &str, owner: &str, name: &str, path: Option<&str>) -> (r: bool)
        ensures
            r == (self@.key() == row_key(host@, owner@, name@, opt_str(path))),
    {
        self.is_remote(host, owner, name) && matches_opt_path(&self.path, path)
    }

    /// Whether the row is of a checkout of this remote.
    fn is_remote(&self, host: &str, owner: &str, name: &str) -> (r: bool)
        ensures
            r == self@.key().of_remote(host@, owner@, name@),
    {
        same_text(self.host.as_str(), host) && same_text(self.owner.as_str(), owner) && same_text(
            self.name.as_str(),
            name,
        )
    }
}

/// The cache on disk: a schema version and the rows.
#[derive(Debug, Clone)]
pub struct Cache {
    pub version: u32,
    pub repos: Vec<RepoCache>,
}

/// The contents of a [`Cache`].
#[verifier::ext_equal]
pub struct CacheView {
    pub version: u32,
    pub rows: Seq<RepoCacheView>,
}

impl View for Cache {
    type V = CacheView;

    open spec fn view(&self) -> CacheView {
        CacheView { version: self.version, rows: views(self.repos@) }
    }
}

impl CacheView {
    /// The empty cache of this build.
    pub open spec fn fresh() -> CacheView {
        CacheView { version: CACHE_VERSION, rows: Seq::empty() }
    }

    /// No identity occurs twice.
    pub open spec fn distinct(self) -> bool {
        forall|i: int, j: int|
            #![trigger self.rows[i], self.rows[j]]
            0 <= i < j < self.rows.len() ==> self.rows[i].key() != self.rows[j].key()
    }

    /// The position of the row with an identity, or the length.
    pub open spec fn row_index(self, key: RowKey) -> int {
        first_index(self.rows, |r: RepoCacheView| r.key() == key)
    }

    /// The position of the first row of a remote, or the length.
    pub open spec fn remote_index(self, host: Seq<char>, owner: Seq<char>, name: Seq<char>) -> int {
        first_index(self.rows, |r: RepoCacheView| r.key().of_remote(host, owner, name))
    }

    /// The position of the first row of a remote that holds GitHub state, or
    /// the length.
    pub open spec fn gh_index(self, host: Seq<char>, owner: Seq<char>, name: Seq<char>) -> int {
        first_index(
            self.rows,
            |r: RepoCacheView| r.key().of_remote(host, owner, name) && r.gh is Some,
        )
    }

    /// The row at a position, if it is one.
    pub open spec fn at(self, i: int) -> Option<RepoCacheView> {
        if 0 <= i < self.rows.len() {
            Some(self.rows[i])
        } else {
            None
        }
    }

    /// The cache with another row at a position.
    pub open spec fn with_row(self, i: int, row: RepoCacheView) -> CacheView {
        CacheView { rows: self.rows.update(i, row), ..self }
    }

    /// The cache without the row at a position; the same cache where there is
    /// none.
    pub open spec fn without(self, i: int) -> CacheView {
        if 0 <= i < self.rows.len() {
            CacheView { rows: self.rows.remove(i), ..self }
        } else {
            self
        }
    }

    /// The position of the row without a path that a repository may claim, or
    /// the length.
    pub open spec fn legacy_index(self, repo: RepoView) -> int {
        self.row_index(row_key(repo.host, repo.owner, repo.name, None))
    }

    /// Where the repository's row stands after an upsert.
    pub open spec fn upsert_index(self, repo: RepoView) -> int {
        if self.row_index(repo.key()) < self.rows.len() {
            self.row_index(repo.key())
        } else {
            self.legacy_index(repo)
        }
    }

    /// The cache after an upsert: the repository's own row is kept, else the
    /// remote's row without a path is given the repository's path, else a
    /// fresh row is put at the end.
    pub open spec fn upserted(self, repo: RepoView) -> CacheView {
        if self.row_index(repo.key()) < self.rows.len() {
            self
        } else if self.legacy_index(repo) < self.rows.len() {
            let i = self.legacy_index(repo);
            self.with_row(i, RepoCacheView { path: repo.path, ..self.rows[i] })
        } else {
            CacheView {
                rows: self.rows.push(
                    RepoCacheView::fresh(repo.host, repo.owner, repo.name, repo.path),
                ),
                ..self
            }
        }
    }
}

/// Why a cache file was refused: its schema version is newer than this build's.
#[derive(Debug)]
pub struct CacheNewer {
    pub path: String,
    pub version: u32,
}

impl CacheNewer {
    /// The text of the message.
    pub open spec fn text(self) -> Seq<char> {
        "cache at "@ + self.path@ + " has schema version "@ + decimal(self.version as nat)
            + ", newer than this build's "@ + decimal(CACHE_VERSION as nat) + " — upgrade shoka"@
    }

    /// The message shown to the user.
    pub fn message(&self) -> (r: String)
        ensures
            r@ == self.text(),
    {
        "cache at ".to_owned().concat(self.path.as_str()).concat(" has schema version ").concat(
            decimal_of(self.version as u64).as_str(),
        ).concat(", newer than this build's ").concat(
            decimal_of(CACHE_VERSION as u64).as_str(),
        ).concat(" — upgrade shoka")
    }
}

/// The extension of the temporary file that a process saves through.
pub open spec fn temp_extension(pid: u32) -> Seq<char> {
    "toml."@ + decimal(pid as nat) + ".tmp"@
}

impl Default for Cache {
    fn default() -> (r: Self)
        ensures
            r@ == CacheView::fresh(),
    {
        let r = Cache { version: CACHE_VERSION, repos: Vec::new() };
        assert(views(r.repos@) =~= Seq::<RepoCacheView>::empty());
        r
    }
}

/// Whether `r` is what loading the cache from a file gives, for what the file
/// holds. Without a file it is the fresh one; a file of a newer schema is refused;
/// any other is taken as it is.
pub open spec fn cache_loads(
    path: Seq<char>,
    contents: Option<Cache>,
    r: Result<Cache, CacheNewer>,
) -> bool {
    match contents {
        None => r matches Ok(s) && s@ == CacheView::fresh(),
        Some(c) => if c.version > CACHE_VERSION {
            r matches Err(e) && e.path@ == path && e.version == c.version
        } else {
            r == Ok::<Cache, CacheNewer>(c)
        },
    }
}

impl Cache {
    /// The cache read from `paths.cache_file()`; see [`Cache::load_from`].
    pub fn load(paths: &ShokaPaths, contents: Option<Cache>) -> (r: Result<Cache, CacheNewer>)
        ensures
            cache_loads(paths.cache_file_text(), contents, r),
    {
        let file = paths.cache_file();
        Self::load_from(file.as_str(), contents)
    }

    /// The cache that the file at `path` holds. Without a file it is the fresh
    /// one; a file of a newer schema is refused; any other is taken as it is.
    pub fn load_from(path: &str, contents: Option<Cache>) -> (r: Result<Cache, CacheNewer>)
        ensures
            cache_loads(path@, contents, r),
    {
        match contents {
            None => Ok(Cache::default()),
            Some(c) => {
                if c.version > CACHE_VERSION {
                    Err(CacheNewer { path: path.to_owned(), version: c.version })
                } else {
                    Ok(c)
                }
            },
        }
    }

    /// How the process `pid` saves the cache to `paths.cache_file()`.
    pub fn save(&self, paths: &ShokaPaths, pid: u32) -> (r: SavePlan)
        ensures
            r.replaces(paths.cache_file_text(), temp_extension(pid)),
    {
        let file = paths.cache_file();
        self.save_to(file.as_str(), pid)
    }

    /// How the process `pid` saves the cache to `path`: by way of a sibling of
    /// its own, so that two processes do not write the same file.
    pub fn save_to(&self, path: &str, pid: u32) -> (r: SavePlan)
        ensures
            r.replaces(path@, temp_extension(pid)),
    {
        let ext = "toml.".to_owned().concat(decimal_of(pid as u64).as_str()).concat(".tmp");
        save_plan(path, ext.as_str())
    }

    /// The position of the row with an identity.
    fn position_of_row(&self, host: &str, owner: &str, name: &str, path: Option<&str>) -> (r: usize)
        ensures
            r == self@.row_index(row_key(host@, owner@, name@, opt_str(path))),
            r <= self.repos@.len(),
    {
        let ghost key = row_key(host@, owner@, name@, opt_str(path));
        let ghost p = |r: RepoCacheView| r.key() == key;
        let mut i: usize = 0;
        while i < self.repos.len()
            invariant
                key == row_key(host@, owner@, name@, opt_str(path)),
                p == (|r: RepoCacheView| r.key() == key),
                i <= self.repos@.len(),
                forall|j: int| 0 <= j < i ==> !p(#[trigger] self@.rows[j]),
            decreases self.repos@.len() - i,
        {
            assert(self@.rows[i as int] == self.repos@[i as int]@);
            if self.repos[i].is_row(host, owner, name, path) {
                proof {
                    lemma_is_first_index(self@.rows, p, i as int);
                }
                return i;
            }
            i = i + 1;
        }
        proof {
            lemma_is_first_index(self@.rows, p, i as int);
        }
        i
    }

    /// The row with this identity: `None` as the path finds the row without a
    /// path alone, a path only the row pinned to it.
    pub fn find(&self, host: &str, owner: &str, name: &str, path: Option<&str>) -> (r: Option<
        &RepoCache,
    >)
        ensures
            opt_ref_view(r) == self@.at(
                self@.row_index(row_key(host@, owner@, name@, opt_str(path))),
            ),
    {
        let i: usize = self.position_of_row(host, owner, name, path);
        if i < self.repos.len() {
            Some(&self.repos[i])
        } else {
            None
        }
    }

    /// The row with this identity, to be changed in place.
    pub fn find_mut(&mut self, host: &str, owner: &str, name: &str, path: Option<&str>) -> (r:
        Option<&mut RepoCache>)
        ensures
            ({
                let i = old(self)@.row_index(row_key(host@, owner@, name@, opt_str(path)));
                match r {
                    Some(e) => {
                        &&& 0 <= i < old(self)@.rows.len()
                        &&& e@ == old(self)@.rows[i]
                        &&& final(self)@ == old(self)@.with_row(i, final(e)@)
                    },
                    None => i == old(self)@.rows.len() && final(self)@ == old(self)@,
                }
            }),
    {
        let i: usize = self.position_of_row(host, owner, name, path);
        if i < self.repos.len() {
            let ghost rows = self.repos@;
            let e = &mut self.repos[i];
            assert(views(rows.update(i as int, *final(e))) =~= views(rows).update(
                i as int,
                final(e)@,
            ));
            Some(e)
        } else {
            None
        }
    }

    /// The first row of a remote, at whatever path.
    pub fn find_any_by_triple(&self, host: &str, owner: &str, name: &str) -> (r: Option<&RepoCache>)
        ensures
            opt_ref_view(r) == self@.at(self@.remote_index(host@, owner@, name@)),
    {
        let ghost p = |r: RepoCacheView| r.key().of_remote(host@, owner@, name@);
        let mut i: usize = 0;
        while i < self.repos.len()
            invariant
                p == (|r: RepoCacheView| r.key().of_remote(host@, owner@, name@)),
                i <= self.repos@.len(),
                forall|j: int| 0 <= j < i ==> !p(#[trigger] self@.rows[j]),
            decreases self.repos@.len() - i,
        {
            assert(self@.rows[i as int] == self.repos@[i as int]@);
            if self.repos[i].is_remote(host, owner, name) {
                proof {
                    lemma_is_first_index(self@.rows, p, i as int);
                }
                return Some(&self.repos[i]);
            }
            i = i + 1;
        }
        proof {
            lemma_is_first_index(self@.rows, p, i as int);
        }
        None
    }

    /// The GitHub state of a remote: that of its first row that holds any.
    pub fn find_gh_by_triple(&self, host: &str, owner: &str, name: &str) -> (r: Option<&GhSnapshot>)
        ensures
            opt_ref_view(r) == (match self@.at(self@.gh_index(host@, owner@, name@)) {
                Some(row) => row.gh,
                None => None,
            }),
    {
        let ghost p = |r: RepoCacheView|
            r.key().of_remote(host@, owner@, name@) && r.gh is Some;
        let mut i: usize = 0;
        while i < self.repos.len()
            invariant
                p == (|r: RepoCacheView|
                    r.key().of_remote(host@, owner@, name@) && r.gh is Some),
                i <= self.repos@.len(),
                forall|j: int| 0 <= j < i ==> !p(#[trigger] self@.rows[j]),
            decreases self.repos@.len() - i,
        {
            assert(self@.rows[i as int] == self.repos@[i as int]@);
            let row = &self.repos[i];
            if row.is_remote(host, owner, name) {
                match &row.gh {
                    Some(gh) => {
                        proof {
                            lemma_is_first_index(self@.rows, p, i as int);
                        }
                        return Some(gh);
                    },
                    None => {},
                }
            }
            i = i + 1;
        }
        proof {
            lemma_is_first_index(self@.rows, p, i as int);
        }
        None
    }

    /// The row of `repo`, to be changed in place; one that is missing is made.
    ///
    /// The repository's own row is taken where there is one. Else a row of the
    /// remote without a path is claimed for the repository's path. Else a
    /// fresh row is put at the end.
    pub fn upsert(&mut self, repo: &Repo) -> (r: &mut RepoCache)
        ensures
            ({
                let i = old(self)@.upsert_index(repo@);
                let next = old(self)@.upserted(repo@);
                &&& 0 <= i < next.rows.len()
                &&& r@ == next.rows[i]
                &&& final(self)@ == next.with_row(i, final(r)@)
            }),
    {
        let i: usize = self.position_of_row(
            repo.host.as_str(),
            repo.owner.as_str(),
            repo.name.as_str(),
            opt_as_str(&repo.path),
        );
        if i < self.repos.len() {
            let ghost rows = self.repos@;
            let e = &mut self.repos[i];
            assert(views(rows.update(i as int, *final(e))) =~= views(rows).update(
                i as int,
                final(e)@,
            ));
            return e;
        }
        let j: usize = self.position_of_row(
            repo.host.as_str(),
            repo.owner.as_str(),
            repo.name.as_str(),
            None,
        );
        if j < self.repos.len() {
            let ghost rows = self.repos@;
            let ghost all = views(rows);
            let e = &mut self.repos[j];
            e.path = clone_opt(&repo.path);
            assert(views(rows.update(j as int, *final(e))) =~= all.update(j as int, final(e)@));
            assert(all.update(j as int, e@).update(j as int, final(e)@) =~= all.update(
                j as int,
                final(e)@,
            ));
            return e;
        }
        let ghost rows = self.repos@;
        let n: usize = self.repos.len();
        self.repos.push(
            RepoCache::with_path(
                repo.host.as_str(),
                repo.owner.as_str(),
                repo.name.as_str(),
                clone_opt(&repo.path),
            ),
        );
        let ghost pushed = self.repos@;
        assert(views(pushed) =~= views(rows).push(pushed.last()@));
        let e = &mut self.repos[n];
        assert(views(pushed.update(n as int, *final(e))) =~= views(pushed).update(
            n as int,
            final(e)@,
        ));
        e
    }

    /// Drops the row with this identity.
    pub fn remove(&mut self, host: &str, owner: &str, name: &str, path: Option<&str>) -> (r: Option<
        RepoCache,
    >)
        ensures
            ({
                let i = old(self)@.row_index(row_key(host@, owner@, name@, opt_str(path)));
                &&& opt_view(r) == old(self)@.at(i)
                &&& final(self)@ == old(self)@.without(i)
            }),
    {
        let i: usize = self.position_of_row(host, owner, name, path);
        if i < self.repos.len() {
            let ghost rows = self.repos@;
            let e = self.repos.remove(i);
            assert(views(rows.remove(i as int)) =~= views(rows).remove(i as int));
            Some(e)
        } else {
            None
        }
    }

    /// The number of rows.
    pub fn len(&self) -> (r: usize)
        ensures
            r == self@.rows.len(),
    {
        self.repos.len()
    }

    /// Whether there is no row.
    pub fn is_empty(&self) -> (r: bool)
        ensures
            r == (self@.rows.len() == 0),
    {
        self.repos.len() == 0
    }
}

/// After an upsert the repository's row is the one that its identity finds,
/// and no row but that one has changed.
pub proof fn law_upserted_row_is_found(cache: CacheView, repo: RepoView)
    ensures
        ({
            let next = cache.upserted(repo);
            let i = cache.upsert_index(repo);
            &&& 0 <= i < next.rows.len()
            &&& next.row_index(repo.key()) == i
            &&& next.rows[i].key() == repo.key()
            &&& next.rows.len() <= cache.rows.len() + 1
            &&& forall|j: int|
                0 <= j < cache.rows.len() && j != i ==> #[trigger] next.rows[j] == cache.rows[j]
        }),
{
    let next = cache.upserted(repo);
    let i = cache.upsert_index(repo);
    let p = |r: RepoCacheView| r.key() == repo.key();
    let bare = row_key(repo.host, repo.owner, repo.name, None);
    lemma_first_index(cache.rows, p);
    lemma_first_index(cache.rows, |r: RepoCacheView| r.key() == bare);
    if cache.row_index(repo.key()) == cache.rows.len() {
        assert forall|j: int| 0 <= j < i implies !p(#[trigger] next.rows[j]) by {
            assert(next.rows[j] == cache.rows[j]);
        }
        if i < cache.rows.len() {
            assert(cache.rows[i].key() == bare);
        }
        assert(p(next.rows[i]));
        lemma_is_first_index(next.rows, p, i);
    }
}

/// A second upsert of the same repository changes nothing.
pub proof fn law_upsert_is_idempotent(cache: CacheView, repo: RepoView)
    ensures
        cache.upserted(repo).upserted(repo) == cache.upserted(repo),
        cache.upserted(repo).upsert_index(repo) == cache.upsert_index(repo),
{
    law_upserted_row_is_found(cache, repo);
}

/// An upsert keeps identities distinct.
pub proof fn law_upsert_keeps_distinct(cache: CacheView, repo: RepoView)
    requires
        cache.distinct(),
    ensures
        cache.upserted(repo).distinct(),
{
    let next = cache.upserted(repo);
    let i = cache.upsert_index(repo);
    let p = |r: RepoCacheView| r.key() == repo.key();
    law_upserted_row_is_found(cache, repo);
    lemma_first_index(cache.rows, p);
    assert forall|a: int, b: int|
        #![trigger next.rows[a], next.rows[b]]
        0 <= a < b < next.rows.len() implies next.rows[a].key() != next.rows[b].key() by {
        if a != i && b != i {
            assert(next.rows[a] == cache.rows[a]);
            assert(next.rows[b] == cache.rows[b]);
        } else if cache.row_index(repo.key()) == cache.rows.len() {
            let other = if a == i {
                b
            } else {
                a
            };
            assert(next.rows[other] == cache.rows[other]);
            assert(!p(cache.rows[other]));
        } else {
            assert(next == cache);
        }
    }
}

/// A row without a path that is claimed for a checkout keeps everything but
/// its path.
pub proof fn law_claimed_row_keeps_its_history(cache: CacheView, repo: RepoView)
    requires
        cache.row_index(repo.key()) == cache.rows.len(),
        cache.legacy_index(repo) < cache.rows.len(),
    ensures
        ({
            let i = cache.legacy_index(repo);
            let row = cache.upserted(repo).rows[i];
            &&& cache.rows[i].path is None
            &&& row == (RepoCacheView { path: repo.path, ..cache.rows[i] })
            &&& cache.upserted(repo).rows.len() == cache.rows.len()
        }),
{
    let bare = row_key(repo.host, repo.owner, repo.name, None);
    lemma_first_index(cache.rows, |r: RepoCacheView| r.key() == bare);
    let i = cache.legacy_index(repo);
    assert(cache.rows[i].key() == bare);
    assert(opt_key(cache.rows[i].path) is None);
}

/// Two checkouts of one remote at different paths get rows of their own: the
/// upsert of the second leaves the row of the first as it was.
pub proof fn law_checkouts_have_rows_of_their_own(cache: CacheView, a: RepoView, b: RepoView)
    requires
        a.path is Some,
        b.path is Some,
        a.key() != b.key(),
    ensures
        ({
            let one = cache.upserted(a);
            let two = one.upserted(b);
            &&& two.row_index(a.key()) == one.row_index(a.key())
            &&& two.at(two.row_index(a.key())) == one.at(one.row_index(a.key()))
            &&& two.row_index(a.key()) != two.row_index(b.key())
        }),
{
    let one = cache.upserted(a);
    let two = one.upserted(b);
    law_upserted_row_is_found(cache, a);
    law_upserted_row_is_found(one, b);
    let i = one.row_index(a.key());
    let k = one.upsert_index(b);
    let p = |r: RepoCacheView| r.key() == a.key();
    let bare = row_key(b.host, b.owner, b.name, None);
    lemma_first_index(one.rows, p);
    lemma_first_index(one.rows, |r: RepoCacheView| r.key() == b.key());
    lemma_first_index(one.rows, |r: RepoCacheView| r.key() == bare);
    assert(one.rows[i].key() == a.key());
    if k < one.rows.len() {
        assert(one.rows[k].key() == b.key() || one.rows[k].key() == bare);
    }
    assert(k != i);
    assert(two.rows[i] == one.rows[i]);
    assert forall|j: int| 0 <= j < i implies !p(#[trigger] two.rows[j]) by {
        if j != k {
            assert(two.rows[j] == one.rows[j]);
        } else {
            assert(two.rows[k].key() == b.key());
        }
    }
    lemma_is_first_index(two.rows, p, i);
}

/// Dropping one row leaves every other identity as it was.
pub proof fn law_remove_keeps_siblings(cache: CacheView, key: RowKey, other: RowKey)
    requires
        key != other,
    ensures
        ({
            let next = cache.without(cache.row_index(key));
            next.at(next.row_index(other)) == cache.at(cache.row_index(other))
        }),
{
    let p = |r: RepoCacheView| r.key() == key;
    let q = |r: RepoCacheView| r.key() == other;
    let i = cache.row_index(key);
    let next = cache.without(i);
    lemma_first_index(cache.rows, p);
    lemma_first_index(cache.rows, q);
    if i < cache.rows.len() {
        let k = cache.row_index(other);
        let m = if k <= i {
            k
        } else {
            k - 1
        };
        assert(cache.rows[i].key() == key);
        assert forall|j: int| 0 <= j < m implies !q(#[trigger] next.rows[j]) by {
            let j2 = if j < i {
                j
            } else {
                j + 1
            };
            assert(next.rows[j] == cache.rows[j2]);
        }
        if k < cache.rows.len() {
            assert(next.rows[m] == cache.rows[k]);
        }
        lemma_is_first_index(next.rows, q, m);
    }
}

/// GitHub state is found for a remote exactly when some row of the remote
/// holds any, whatever rows without it come first.
pub proof fn law_gh_is_shared(cache: CacheView, host: Seq<char>, owner: Seq<char>, name: Seq<char>)
    ensures
        (cache.gh_index(host, owner, name) < cache.rows.len()) == (exists|i: int|
            #![trigger cache.rows[i]]
            0 <= i < cache.rows.len() && cache.rows[i].key().of_remote(host, owner, name)
                && cache.rows[i].gh is Some),
{
    let p = |r: RepoCacheView| r.key().of_remote(host, owner, name) && r.gh is Some;
    lemma_first_index(cache.rows, p);
    let k = cache.gh_index(host, owner, name);
    if k < cache.rows.len() {
        assert(p(cache.rows[k]));
    } else {
        assert forall|i: int| 0 <= i < cache.rows.len() implies !p(#[trigger] cache.rows[i]) by {}
    }
}

/// A row never becomes fresh by waiting, nor stale by a longer threshold; one
/// stamped in the future is fresh.
pub proof fn law_staleness(row: RepoCacheView, threshold: u64, now: u64, later: u64, longer: u64)
    requires
        now <= later,
        threshold <= longer,
    ensures
        row.is_stale(threshold, now) ==> row.is_stale(threshold, later),
        row.is_stale(longer, now) ==> row.is_stale(threshold, now),
        row.last_refreshed is Some && row.last_refreshed->0 >= now ==> !row.is_stale(
            threshold,
            now,
        ),
        row.last_refreshed is None ==> row.is_stale(threshold, now),
{
}

/// The cache is saved to the file that it is loaded from, whatever process saves
/// it, and one that the file gives back as it was saved is loaded as it was: with
/// the same version and the same rows, in order.
pub proof fn law_saved_cache_is_loaded(
    cache: Cache,
    paths: ShokaPaths,
    pid: u32,
    plan: SavePlan,
    r: Result<Cache, CacheNewer>,
)
    requires
        cache.version <= CACHE_VERSION,
        plan.replaces(paths.cache_file_text(), temp_extension(pid)),
        cache_loads(paths.cache_file_text(), Some(cache), r),
    ensures
        plan.target@ == paths.cache_file_text(),
        r == Ok::<Cache, CacheNewer>(cache),
{
}

/// A row is found under its identity where it first stands, and is not found exactly
/// when no row has that identity.
pub proof fn law_cached_row_under_its_identity(cache: CacheView, key: RowKey)
    ensures
        ({
            let i = cache.row_index(key);
            &&& 0 <= i <= cache.rows.len()
            &&& i < cache.rows.len() ==> cache.rows[i].key() == key && cache.at(i) == Some(
                cache.rows[i],
            )
            &&& forall|j: int| 0 <= j < i ==> (#[trigger] cache.rows[j]).key() != key
            &&& i == cache.rows.len() ==> cache.at(i) is None
        }),
{
    lemma_first_index(cache.rows, |r: RepoCacheView| r.key() == key);
    let p = |r: RepoCacheView| r.key() == key;
    assert forall|j: int| 0 <= j < cache.row_index(key) implies (#[trigger] cache.rows[j]).key()
        != key by {
        assert(!p(cache.rows[j]));
    }
}

/// A remote's state is found at its first row; its GitHub state at its first row that
/// holds some.
pub proof fn law_first_row_of_a_remote(
    cache: CacheView,
    host: Seq<char>,
    owner: Seq<char>,
    name: Seq<char>,
    j: int,
)
    requires
        0 <= j < cache.rows.len(),
        cache.rows[j].host == host,
        cache.rows[j].owner == owner,
        cache.rows[j].name == name,
    ensures
        ({
            let i = cache.remote_index(host, owner, name);
            let r = cache.rows[i];
            0 <= i <= j && r.host == host && r.owner == owner && r.name == name
        }),
        cache.rows[j].gh is Some ==> {
            let i = cache.gh_index(host, owner, name);
            let r = cache.rows[i];
            0 <= i <= j && r.host == host && r.owner == owner && r.name == name && r.gh is Some
        },
{
    let p = |r: RepoCacheView| r.key().of_remote(host, owner, name);
    let q = |r: RepoCacheView| r.key().of_remote(host, owner, name) && r.gh is Some;
    lemma_first_index(cache.rows, p);
    lemma_first_index(cache.rows, q);
    assert(p(cache.rows[j]));
    if cache.rows[j].gh is Some {
        assert(q(cache.rows[j]));
    }
}

/// Two rows are the same exactly when their host, owner and name are and they have
/// no path both, or paths with the same components from the same start.
pub proof fn law_identity_of_a_cached_row(a: RepoCacheView, b: RepoCacheView)
    ensures
        (a.key() == b.key()) == {
            &&& a.host == b.host && a.owner == b.owner && a.name == b.name
            &&& a.path is Some == b.path is Some
            &&& a.path is Some ==> rooted(a.path->0) == rooted(b.path->0) && path_key(
                a.path->0,
            ).parts == path_key(b.path->0).parts
        },
{
}

/// A repository without a row of its own and without one to claim gets a new one,
/// behind all others: it names the repository, and nothing was captured for it yet.
/// An upsert never changes the version.
pub proof fn law_new_row_is_blank(cache: CacheView, repo: RepoView)
    ensures
        cache.upserted(repo).version == cache.version,
        cache.row_index(repo.key()) == cache.rows.len() && cache.legacy_index(repo)
            == cache.rows.len() ==> {
            let next = cache.upserted(repo);
            let row = next.rows.last();
            &&& next.rows.len() == cache.rows.len() + 1
            &&& next.rows.drop_last() == cache.rows
            &&& row.host == repo.host && row.owner == repo.owner && row.name == repo.name
            &&& row.path == repo.path
            &&& row.last_refreshed is None && row.git_status is None && row.gh is None
        },
        cache.row_index(repo.key()) < cache.rows.len() ==> cache.upserted(repo) == cache,
{
    let next = cache.upserted(repo);
    if cache.row_index(repo.key()) == cache.rows.len() && cache.legacy_index(repo)
        == cache.rows.len() {
        assert(next.rows.drop_last() =~= cache.rows);
    }
}

/// Dropping a row lets those behind it move up by one, and changes no other.
pub proof fn law_cached_rows_keep_their_order(cache: CacheView, i: int)
    requires
        0 <= i < cache.rows.len(),
    ensures
        cache.without(i).rows.len() == cache.rows.len() - 1,
        forall|j: int| 0 <= j < i ==> #[trigger] cache.without(i).rows[j] == cache.rows[j],
        forall|j: int|
            i <= j < cache.rows.len() - 1 ==> #[trigger] cache.without(i).rows[j] == cache.rows[j
                + 1],
        cache.without(i).version == cache.version,
{
}

/// A row that was refreshed at some time turns stale one second after the threshold
/// has passed, and not before.
pub proof fn law_when_a_row_turns_stale(row: RepoCacheView, ts: u64, threshold: u64, now: u64)
    requires
        row.last_refreshed == Some(ts),
    ensures
        row.is_stale(threshold, now) == (ts + threshold < now),
{
}

/// Without a file the cache is empty and of this build's version. A file of a newer
/// version is refused, under its path and its version, and no other is.
pub proof fn law_what_a_cache_file_loads_as(
    path: Seq<char>,
    contents: Option<Cache>,
    r: Result<Cache, CacheNewer>,
)
    requires
        cache_loads(path, contents, r),
    ensures
        contents is None ==> r is Ok && r->Ok_0@.rows.len() == 0 && r->Ok_0.version
            == CACHE_VERSION,
        r is Err == (contents is Some && contents->0.version > CACHE_VERSION),
        r is Err ==> r->Err_0.path@ == path && r->Err_0.version == contents->0.version,
        r is Ok && contents is Some ==> r->Ok_0 == contents->0,
{
}

/// Two processes never save by way of the same file; both use a temporary one, which
/// ends in `.tmp`.
pub proof fn law_processes_save_apart(a: u32, b: u32)
    requires
        a != b,
    ensures
        temp_extension(a) != temp_extension(b),
        occurs_at(temp_extension(a), "toml."@, 0),
        occurs_at(temp_extension(a), ".tmp"@, temp_extension(a).len() - 4),
{
    reveal_strlit("toml.");
    reveal_strlit(".tmp");
    law_decimal_reads_back(a as nat);
    law_decimal_reads_back(b as nat);
    let x = temp_extension(a);
    let y = temp_extension(b);
    assert(x.subrange(0, 5) =~= "toml."@);
    assert(x.subrange(x.len() - 4, x.len() as int) =~= ".tmp"@);
    assert(x.subrange(5, x.len() - 4) =~= decimal(a as nat));
    assert(y.subrange(5, y.len() - 4) =~= decimal(b as nat));
}

/// What is said of a cache file of a newer version names the file and its version.
pub proof fn law_refusal_names_the_file(e: CacheNewer)
    ensures
        has(e.text(), e.path@ + " has schema version "@ + decimal(e.version as nat)),
{
    let number = decimal(e.version as nat);
    let middle = " has schema version "@;
    let head = "cache at "@ + e.path@ + middle + number;
    let told = e.path@ + middle + number;
    let build = decimal(CACHE_VERSION as nat);
    lemma_told_in_order("cache at "@, e.path@, middle, number);
    lemma_stands_in_longer(head, ", newer than this build's "@, told);
    let more = head + ", newer than this build's "@;
    lemma_stands_in_longer(more, build, told);
    lemma_stands_in_longer(more + build, " — upgrade shoka"@, told);
}

} // verus!
