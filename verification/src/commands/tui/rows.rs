//! The rows of the dashboard.
use vstd::prelude::*;
use vstd::string::*;

use crate::cache::{
    law_cached_row_under_its_identity, law_gh_is_shared, Cache, CacheView, RepoCacheView,
};
use crate::commands::exec::{fails_first_at, path_fails};
use crate::config::{ConfigError, ResolvedConfig};
use crate::gh::{GhSnapshot, GhSnapshotView};
use crate::git_status::{GitStatusSnapshot, GitStatusView};
use crate::seqs::{lemma_first_index, opt_view, views};
use crate::state::{Repo, RepoView, Shelf};
use crate::text::{
    decimal, decimal_of, has, join, joined, lemma_stands_between, lemma_told_in_order, occurs_at,
    opt_as_str, texts,
};

verus! {

/// One row of the dashboard.
#[derive(Debug)]
pub struct DashRow {
    pub slug: String,
    pub owner: String,
    pub path: String,
    /// What the filter is matched against: the slug and the path.
    pub search_key: String,
    pub tags_display: String,
    /// Local state, where it was captured.
    pub status: Option<GitStatusSnapshot>,
    /// GitHub state, where it was captured.
    pub gh: Option<GhSnapshot>,
}

/// The contents of a [`DashRow`].
#[verifier::ext_equal]
pub struct DashRowView {
    pub slug: Seq<char>,
    pub owner: Seq<char>,
    pub path: Seq<char>,
    pub search_key: Seq<char>,
    pub tags_display: Seq<char>,
    pub status: Option<GitStatusView>,
    pub gh: Option<GhSnapshotView>,
}

impl View for DashRow {
    type V = DashRowView;

    open spec fn view(&self) -> DashRowView {
        DashRowView {
            slug: self.slug@,
            owner: self.owner@,
            path: self.path@,
            search_key: self.search_key@,
            tags_display: self.tags_display@,
            status: opt_view(self.status),
            gh: opt_view(self.gh),
        }
    }
}

/// The row of a repository at a path: its own local state, and the GitHub state
/// of its remote.
pub open spec fn row_of(repo: RepoView, path: Seq<char>, cache: CacheView) -> DashRowView {
    DashRowView {
        slug: repo.slug(),
        owner: repo.owner,
        path,
        search_key: repo.slug() + " "@ + path,
        tags_display: joined(repo.tags, ", "@),
        status: match cache.at(cache.row_index(repo.key())) {
            Some(row) => row.git_status,
            None => None,
        },
        gh: match cache.at(cache.gh_index(repo.host, repo.owner, repo.name)) {
            Some(row) => row.gh,
            None => None,
        },
    }
}

/// The rows of some repositories, in order, each at a path where it may live.
pub open spec fn rows_of(
    config: ResolvedConfig,
    cache: CacheView,
    repos: Seq<RepoView>,
    rows: Seq<DashRow>,
) -> bool {
    &&& rows.len() == repos.len()
    &&& forall|i: int|
        0 <= i < rows.len() ==> config.may_live_at(repos[i], (#[trigger] rows[i])@.path)
            && rows[i]@ == row_of(repos[i], rows[i]@.path, cache)
}

/// The row of a repository at a path.
pub fn row_for(repo: &Repo, path: String, cache: &Cache) -> (r: DashRow)
    ensures
        r@ == row_of(repo@, path@, cache@),
{
    let status = match cache.find(
        repo.host.as_str(),
        repo.owner.as_str(),
        repo.name.as_str(),
        opt_as_str(&repo.path),
    ) {
        Some(row) => match &row.git_status {
            Some(s) => Some(s.clone()),
            None => None,
        },
        None => None,
    };
    let gh = match cache.find_gh_by_triple(
        repo.host.as_str(),
        repo.owner.as_str(),
        repo.name.as_str(),
    ) {
        Some(g) => Some(g.clone()),
        None => None,
    };
    let slug = repo.slug();
    let search_key = slug.clone().concat(" ").concat(path.as_str());
    DashRow {
        slug,
        owner: repo.owner.clone(),
        path,
        search_key,
        tags_display: join(&repo.tags, ", "),
        status,
        gh,
    }
}

/// Why there is no dashboard.
#[derive(Debug)]
pub enum TuiError {
    /// There is nothing on the shelf.
    EmptyShelf,
    /// A repository's path does not render.
    Path { slug: String, error: ConfigError },
    /// No row carries the wanted tags; holds the number of rows.
    NoTagMatch(usize),
}

impl TuiError {
    /// The text of the message.
    pub open spec fn text(self) -> Seq<char> {
        match self {
            TuiError::EmptyShelf =>
                "shelf is empty — nothing to dashboard. `shoka clone <url>` or `shoka import <dir>` first"@,
            TuiError::Path { slug, error } => "resolving clone path for "@ + slug@ + ": "@
                + error.text(),
            TuiError::NoTagMatch(n) => "no repos matched the tag filter ("@ + decimal(
                n as nat,
            ) + " on the shelf total)"@,
        }
    }

    /// The message shown to the user.
    pub fn message(&self) -> (r: String)
        ensures
            r@ == self.text(),
    {
        match self {
            TuiError::EmptyShelf => "shelf is empty — nothing to dashboard. `shoka clone <url>` or `shoka import <dir>` first".to_owned(),
            TuiError::Path { slug, error } => "resolving clone path for ".to_owned().concat(
                slug.as_str(),
            ).concat(": ").concat(error.message().as_str()),
            TuiError::NoTagMatch(n) => "no repos matched the tag filter (".to_owned().concat(
                decimal_of(*n as u64).as_str(),
            ).concat(" on the shelf total)"),
        }
    }
}

/// The rows of the repositories with the wanted tags, in shelf order; or the
/// first path that does not render.
pub fn build_rows(
    shelf: &Shelf,
    resolved: &ResolvedConfig,
    cache: &Cache,
    tag_filter: &[String],
) -> (r: Result<Vec<DashRow>, TuiError>)
    ensures
        match r {
            Ok(v) => rows_of(*resolved, cache@, shelf@.tagged(texts(tag_filter@)), v@),
            Err(e) => e matches TuiError::Path { slug, error } && path_fails(
                *resolved,
                shelf@.tagged(texts(tag_filter@)),
                slug@,
                error,
            ),
        },
{
    let tagged = shelf.filter_by_tags(tag_filter);
    let ghost repos = views(tagged@);
    let mut out: Vec<DashRow> = Vec::new();
    let mut i: usize = 0;
    while i < tagged.len()
        invariant
            repos == views(tagged@),
            repos == shelf@.tagged(texts(tag_filter@)),
            i <= tagged@.len(),
            out@.len() == i,
            forall|j: int|
                0 <= j < i ==> resolved.may_live_at(repos[j], (#[trigger] out@[j])@.path)
                    && out@[j]@ == row_of(repos[j], out@[j]@.path, cache@),
        decreases tagged@.len() - i,
    {
        let repo = tagged[i];
        assert(repos[i as int] == repo@);
        match resolved.clone_path_for(repo) {
            Ok(path) => {
                out.push(row_for(repo, path, cache));
            },
            Err(error) => {
                proof {
                    assert forall|j: int| 0 <= j < i implies resolved.may_render(
                        #[trigger] repos[j],
                    ) by {
                        assert(resolved.may_live_at(repos[j], out@[j]@.path));
                    }
                    assert(fails_first_at(*resolved, repos, repo@.slug(), error, i as int));
                }
                return Err(TuiError::Path { slug: repo.slug(), error });
            },
        }
        i = i + 1;
    }
    Ok(out)
}

/// The rows to show. Refused on an empty shelf, when a path does not render,
/// and when no row matches, in this order.
pub fn dashboard(
    shelf: &Shelf,
    resolved: &ResolvedConfig,
    cache: &Cache,
    tag_filter: &[String],
) -> (r: Result<Vec<DashRow>, TuiError>)
    ensures
        ({
            let repos = shelf@.tagged(texts(tag_filter@));
            if shelf@.rows.len() == 0 {
                r matches Err(TuiError::EmptyShelf)
            } else {
                match r {
                    Ok(v) => repos.len() > 0 && rows_of(*resolved, cache@, repos, v@),
                    Err(TuiError::NoTagMatch(n)) => repos.len() == 0 && n == shelf@.rows.len(),
                    Err(TuiError::Path { slug, error }) => path_fails(
                        *resolved,
                        repos,
                        slug@,
                        error,
                    ),
                    Err(TuiError::EmptyShelf) => false,
                }
            }
        }),
{
    if shelf.is_empty() {
        return Err(TuiError::EmptyShelf);
    }
    match build_rows(shelf, resolved, cache, tag_filter) {
        Ok(rows) => {
            if rows.len() == 0 {
                Err(TuiError::NoTagMatch(shelf.len()))
            } else {
                Ok(rows)
            }
        },
        Err(e) => Err(e),
    }
}

/// A row names its repository, is found by its slug and by its path, and lists its
/// tags with a comma between each two.
pub proof fn law_row_of_a_repository(repo: RepoView, path: Seq<char>, cache: CacheView)
    ensures
        ({
            let row = row_of(repo, path, cache);
            &&& row.slug == repo.host + "/"@ + repo.owner + "/"@ + repo.name
            &&& row.owner == repo.owner
            &&& row.path == path
            &&& occurs_at(row.search_key, row.slug, 0)
            &&& occurs_at(row.search_key, path, row.slug.len() as int + 1)
            &&& row.search_key.len() == row.slug.len() + 1 + path.len()
            &&& row.tags_display == joined(repo.tags, ", "@)
        }),
{
    reveal_strlit(" ");
    let row = row_of(repo, path, cache);
    let key = row.search_key;
    let n = row.slug.len() as int;
    assert(key.subrange(0, n) =~= row.slug);
    assert(key.subrange(n + 1, n + 1 + path.len()) =~= path);
}

/// A row shows the local state that the cache holds under its own identity, and none
/// of another checkout's; and the GitHub state that some checkout of its remote has.
pub proof fn law_state_in_a_row(repo: RepoView, path: Seq<char>, cache: CacheView, j: int)
    ensures
        ({
            let row = row_of(repo, path, cache);
            &&& 0 <= j < cache.rows.len() && cache.distinct() && cache.rows[j].key() == repo.key()
                ==> row.status == cache.rows[j].git_status
            &&& (forall|i: int|
                0 <= i < cache.rows.len() ==> (#[trigger] cache.rows[i]).key() != repo.key())
                ==> row.status is None
            &&& row.gh is Some == (exists|i: int|
                #![trigger cache.rows[i]]
                0 <= i < cache.rows.len() && cache.rows[i].key().of_remote(
                    repo.host,
                    repo.owner,
                    repo.name,
                ) && cache.rows[i].gh is Some)
            &&& row.gh is Some ==> exists|i: int|
                #![trigger cache.rows[i]]
                0 <= i < cache.rows.len() && cache.rows[i].host == repo.host && cache.rows[i].owner
                    == repo.owner && cache.rows[i].name == repo.name && cache.rows[i].gh == row.gh
        }),
{
    law_cached_row_under_its_identity(cache, repo.key());
    law_gh_is_shared(cache, repo.host, repo.owner, repo.name);
    let (h, o, n) = (repo.host, repo.owner, repo.name);
    let k = cache.row_index(repo.key());
    if 0 <= j < cache.rows.len() && cache.distinct() && cache.rows[j].key() == repo.key() {
        if k < j {
            assert(cache.rows[k].key() != cache.rows[j].key());
        }
    }
    let p = |r: RepoCacheView| r.key().of_remote(h, o, n) && r.gh is Some;
    lemma_first_index(cache.rows, p);
    let g = cache.gh_index(h, o, n);
    if g < cache.rows.len() {
        assert(p(cache.rows[g]));
    }
}

/// What is said where there is no dashboard names the row and the reason, or the number
/// of rows.
pub proof fn law_messages_of_the_dashboard(e: TuiError)
    ensures
        e matches TuiError::Path { slug, error } ==> has(e.text(), slug@ + ": "@ + error.text()),
        e matches TuiError::NoTagMatch(n) ==> has(e.text(), decimal(n as nat)),
{
    match e {
        TuiError::Path { slug, error } => {
            let head = "resolving clone path for "@;
            lemma_told_in_order(head, slug@, ": "@, error.text());
        },
        TuiError::NoTagMatch(n) => {
            let number = decimal(n as nat);
            let head = "no repos matched the tag filter ("@;
            lemma_stands_between(head, number, " on the shelf total)"@);
        },
        _ => {},
    }
}

/// The dashboard has one row for each repository, in order; a pinned one is shown where
/// it is pinned.
pub proof fn law_rows(
    config: ResolvedConfig,
    cache: CacheView,
    repos: Seq<RepoView>,
    rows: Seq<DashRow>,
    i: int,
)
    requires
        rows_of(config, cache, repos, rows),
        0 <= i < repos.len(),
    ensures
        rows.len() == repos.len(),
        rows[i]@.slug == repos[i].host + "/"@ + repos[i].owner + "/"@ + repos[i].name,
        rows[i]@.owner == repos[i].owner,
        repos[i].path is Some ==> rows[i]@.path == repos[i].path->0,
{
    let row = rows[i]@;
}

} // verus!
