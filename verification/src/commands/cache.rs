//! `shoka cache`: refreshing what is known of every checkout.
//!
//! A refresh goes over the shelf row by row. A row is passed over when it
//! lacks a wanted tag, when its path does not render, or when it was refreshed
//! recently. Of the others the local state is captured, and GitHub's where the
//! remote is there and a login is at hand. What cannot be captured keeps its
//! last known state.
use vstd::prelude::*;
use vstd::string::*;

use crate::actions::arg_texts;
use crate::cache::{
    law_upsert_keeps_distinct, law_upserted_row_is_found, Cache, CacheView, RepoCacheView,
};
use crate::commands::import::bumped;
use crate::config::ConfigError;
use crate::gh::{GhSnapshot, GhSnapshotView};
use crate::git_status::{GitStatusSnapshot, GitStatusView};
use crate::seqs::{lemma_first_index, lemma_is_first_index, opt_view};
use crate::state::{has_all_tags, Repo, RepoView};
use crate::text::{
    decimal, decimal_of, has, line_if, occurs_at, opt_str, opt_text, own_opt, push_if, same_text,
    texts,
};

verus! {

/// What a refresh was asked to do.
#[derive(Debug)]
pub struct RefreshParams {
    pub now: u64,
    pub threshold_secs: u64,
    pub force: bool,
    pub tags: Vec<String>,
    /// A GitHub client is at hand.
    pub has_client: bool,
}

/// What a refresh did so far.
#[derive(Debug, Clone, Copy, PartialEq, Eq, Structural)]
pub struct RefreshCounts {
    pub refreshed: usize,
    pub skipped_threshold: usize,
    pub skipped_filter: usize,
    pub capture_errors: usize,
    pub gh_errors: usize,
}

/// What to do about a row.
#[derive(Debug)]
pub enum RefreshStep {
    /// It lacks a wanted tag.
    Filtered,
    /// Its path does not render, for this reason.
    NoPath(ConfigError),
    /// It was refreshed recently.
    Fresh,
    /// Its local state is to be captured at this path, and GitHub's where that
    /// is so.
    Capture { path: String, want_gh: bool },
}

/// What came of asking GitHub.
#[derive(Debug)]
pub enum GhReply {
    NotAsked,
    Failed,
    Snapshot(GhSnapshot),
}

/// No counts yet.
pub open spec fn no_counts() -> RefreshCounts {
    RefreshCounts {
        refreshed: 0,
        skipped_threshold: 0,
        skipped_filter: 0,
        capture_errors: 0,
        gh_errors: 0,
    }
}

/// A refresh in progress.
#[derive(Debug)]
pub struct Refresh {
    pub cache: Cache,
    pub counts: RefreshCounts,
}

impl Refresh {
    /// A refresh before its first row.
    pub fn new(cache: Cache) -> (r: Self)
        ensures
            r.cache == cache,
            r.counts == no_counts(),
    {
        Refresh {
            cache,
            counts: RefreshCounts {
                refreshed: 0,
                skipped_threshold: 0,
                skipped_filter: 0,
                capture_errors: 0,
                gh_errors: 0,
            },
        }
    }

    /// What to do about a row, given the path that it resolves to. A row that
    /// is not passed over for its tags or its path gets its place in the cache.
    pub fn consider(
        &mut self,
        repo: &Repo,
        path: Result<String, ConfigError>,
        params: &RefreshParams,
    ) -> (r: RefreshStep)
        ensures
            ({
                let before = old(self).counts;
                let next = old(self).cache@.upserted(repo@);
                let row = next.rows[old(self).cache@.upsert_index(repo@)];
                if !repo@.has_all_tags(texts(params.tags@)) {
                    &&& r is Filtered
                    &&& final(self).cache@ == old(self).cache@
                    &&& final(self).counts == (RefreshCounts {
                        skipped_filter: bumped(before.skipped_filter, true),
                        ..before
                    })
                } else if path is Err {
                    &&& r == RefreshStep::NoPath(path->Err_0)
                    &&& final(self).cache@ == old(self).cache@
                    &&& final(self).counts == (RefreshCounts {
                        capture_errors: bumped(before.capture_errors, true),
                        ..before
                    })
                } else if !params.force && !row.is_stale(params.threshold_secs, params.now) {
                    &&& r is Fresh
                    &&& final(self).cache@ == next
                    &&& final(self).counts == (RefreshCounts {
                        skipped_threshold: bumped(before.skipped_threshold, true),
                        ..before
                    })
                } else {
                    &&& r matches RefreshStep::Capture { path: p, want_gh } && p == path->Ok_0
                        && want_gh == (params.has_client && repo@.host == "github.com"@)
                    &&& final(self).cache@ == next
                    &&& final(self).counts == before
                }
            }),
    {
        if !has_all_tags(repo, &params.tags) {
            self.counts.skipped_filter = self.counts.skipped_filter.saturating_add(1);
            return RefreshStep::Filtered;
        }
        let path = match path {
            Ok(p) => p,
            Err(e) => {
                self.counts.capture_errors = self.counts.capture_errors.saturating_add(1);
                return RefreshStep::NoPath(e);
            },
        };
        let ghost next = self.cache@.upserted(repo@);
        let ghost i = self.cache@.upsert_index(repo@);
        let entry = self.cache.upsert(repo);
        let stale = entry.is_stale(params.threshold_secs, params.now);
        proof {
            assert(next.rows.update(i, next.rows[i]) =~= next.rows);
        }
        if !params.force && !stale {
            self.counts.skipped_threshold = self.counts.skipped_threshold.saturating_add(1);
            return RefreshStep::Fresh;
        }
        let want_gh = params.has_client && same_text(repo.host.as_str(), "github.com");
        RefreshStep::Capture { path, want_gh }
    }

    /// Puts what was captured of a row into the cache. A state that could not
    /// be captured stays what it was; the row counts as refreshed either way.
    pub fn record(
        &mut self,
        repo: &Repo,
        git: Option<GitStatusSnapshot>,
        gh: GhReply,
        now: u64,
    )
        ensures
            final(self).cache@ == recorded(
                old(self).cache@,
                repo@,
                opt_view(git),
                match gh {
                    GhReply::Snapshot(s) => Some(s@),
                    _ => None,
                },
                now,
            ),
            final(self).counts == (RefreshCounts {
                refreshed: bumped(old(self).counts.refreshed, true),
                capture_errors: bumped(old(self).counts.capture_errors, git is None),
                gh_errors: bumped(old(self).counts.gh_errors, gh is Failed),
                ..old(self).counts
            }),
    {
        let entry = self.cache.upsert(repo);
        match git {
            Some(snapshot) => {
                entry.git_status = Some(snapshot);
            },
            None => {
                self.counts.capture_errors = self.counts.capture_errors.saturating_add(1);
            },
        }
        match gh {
            GhReply::Snapshot(snapshot) => {
                entry.gh = Some(snapshot);
            },
            GhReply::Failed => {
                self.counts.gh_errors = self.counts.gh_errors.saturating_add(1);
            },
            GhReply::NotAsked => {},
        }
        entry.last_refreshed = Some(now);
        self.counts.refreshed = self.counts.refreshed.saturating_add(1);
    }
}

/// A row once what was captured is in it.
pub open spec fn recorded_row(
    row: RepoCacheView,
    git: Option<GitStatusView>,
    gh: Option<GhSnapshotView>,
    now: u64,
) -> RepoCacheView {
    RepoCacheView {
        git_status: if git is Some {
            git
        } else {
            row.git_status
        },
        gh: if gh is Some {
            gh
        } else {
            row.gh
        },
        last_refreshed: Some(now),
        ..row
    }
}

/// The cache once what was captured of a repository is in it.
pub open spec fn recorded(
    cache: CacheView,
    repo: RepoView,
    git: Option<GitStatusView>,
    gh: Option<GhSnapshotView>,
    now: u64,
) -> CacheView {
    let next = cache.upserted(repo);
    let i = cache.upsert_index(repo);
    next.with_row(i, recorded_row(next.rows[i], git, gh, now))
}

/// What is said at the end of a refresh.
pub open spec fn summary_texts(
    counts: RefreshCounts,
    force: bool,
    threshold: u64,
    on_shelf: usize,
    has_client: bool,
) -> Seq<Seq<char>> {
    seq![
        "refreshed "@ + decimal(counts.refreshed as nat) + (if force {
            " (forced)"@
        } else {
            ""@
        }) + " repo"@ + (if counts.refreshed == 1 {
            ""@
        } else {
            "s"@
        }) + " ("@ + decimal(on_shelf as nat) + " on the shelf)"@,
    ] + line_if(
        counts.skipped_threshold > 0,
        decimal(counts.skipped_threshold as nat) + " fresh (within "@ + decimal(threshold as nat)
            + "s threshold)"@,
    ) + line_if(
        counts.skipped_filter > 0,
        decimal(counts.skipped_filter as nat) + " filtered out by --tag"@,
    ) + line_if(
        counts.capture_errors > 0,
        decimal(counts.capture_errors as nat)
            + " capture errors (previous snapshot kept; see SHOKA_LOG=warn)"@,
    ) + line_if(
        counts.gh_errors > 0,
        decimal(counts.gh_errors as nat)
            + " gh API errors (rate limit / 404? previous snapshot kept)"@,
    ) + line_if(
        !has_client,
        "no GITHUB_TOKEN / gh CLI — PR + CI columns will stay empty"@,
    )
}

/// What is said at the end of a refresh: how many rows were refreshed, and
/// each other count that is not zero.
pub fn summary(
    counts: &RefreshCounts,
    force: bool,
    threshold: u64,
    on_shelf: usize,
    has_client: bool,
) -> (r: Vec<String>)
    ensures
        texts(r@) == summary_texts(*counts, force, threshold, on_shelf, has_client),
{
    let mut out: Vec<String> = Vec::new();
    let first = "refreshed ".to_owned().concat(
        decimal_of(counts.refreshed as u64).as_str(),
    ).concat(
        if force {
            " (forced)"
        } else {
            ""
        },
    ).concat(" repo").concat(
        if counts.refreshed == 1 {
            ""
        } else {
            "s"
        },
    ).concat(" (").concat(decimal_of(on_shelf as u64).as_str()).concat(" on the shelf)");
    let ghost head = first@;
    out.push(first);
    assert(texts(out@) =~= seq![head]);
    push_if(
        &mut out,
        counts.skipped_threshold > 0,
        decimal_of(counts.skipped_threshold as u64).concat(" fresh (within ").concat(
            decimal_of(threshold).as_str(),
        ).concat("s threshold)"),
    );
    push_if(
        &mut out,
        counts.skipped_filter > 0,
        decimal_of(counts.skipped_filter as u64).concat(" filtered out by --tag"),
    );
    push_if(
        &mut out,
        counts.capture_errors > 0,
        decimal_of(counts.capture_errors as u64).concat(
            " capture errors (previous snapshot kept; see SHOKA_LOG=warn)",
        ),
    );
    push_if(
        &mut out,
        counts.gh_errors > 0,
        decimal_of(counts.gh_errors as u64).concat(
            " gh API errors (rate limit / 404? previous snapshot kept)",
        ),
    );
    push_if(
        &mut out,
        !has_client,
        "no GITHUB_TOKEN / gh CLI — PR + CI columns will stay empty".to_owned(),
    );
    out
}

/// What a background refresh logs at its end.
pub fn background_line(counts: &RefreshCounts, on_shelf: usize) -> (r: String)
    ensures
        r@ == "background cache refresh: "@ + decimal(counts.refreshed as nat) + " updated, "@
            + decimal(counts.skipped_threshold as nat) + " fresh, "@ + decimal(
            counts.skipped_filter as nat,
        ) + " filtered, "@ + decimal(counts.capture_errors as nat) + " capture errors, "@ + decimal(
            counts.gh_errors as nat,
        ) + " gh errors ("@ + decimal(on_shelf as nat) + " on shelf)"@,
{
    "background cache refresh: ".to_owned().concat(
        decimal_of(counts.refreshed as u64).as_str(),
    ).concat(" updated, ").concat(decimal_of(counts.skipped_threshold as u64).as_str()).concat(
        " fresh, ",
    ).concat(decimal_of(counts.skipped_filter as u64).as_str()).concat(" filtered, ").concat(
        decimal_of(counts.capture_errors as u64).as_str(),
    ).concat(" capture errors, ").concat(decimal_of(counts.gh_errors as u64).as_str()).concat(
        " gh errors (",
    ).concat(decimal_of(on_shelf as u64).as_str()).concat(" on shelf)")
}

/// A background refresh to be started: the program, its arguments, and what is
/// added to its environment.
#[derive(Debug)]
pub struct SpawnPlan {
    pub exe: String,
    pub args: Vec<&'static str>,
    pub config: String,
    pub profile: Option<String>,
}

/// The background refresh to be started after a command: none when the
/// configuration turns it off. It works with the same configuration file and
/// profile.
pub fn try_spawn_bg_refresh(
    background_refresh: bool,
    exe: &str,
    config_file: &str,
    profile: Option<&str>,
) -> (r: Option<SpawnPlan>)
    ensures
        match r {
            Some(plan) => {
                &&& background_refresh
                &&& plan.exe@ == exe@
                &&& arg_texts(plan.args@) == seq![
                    "cache"@,
                    "refresh"@,
                    "--background"@,
                ]
                &&& plan.config@ == config_file@
                &&& opt_text(plan.profile) == opt_str(profile)
            },
            None => !background_refresh,
        },
{
    if !background_refresh {
        return None;
    }
    let args = vec!["cache", "refresh", "--background"];
    assert(arg_texts(args@) =~= seq!["cache"@, "refresh"@, "--background"@]);
    Some(
        SpawnPlan {
            exe: exe.to_owned(),
            args,
            config: config_file.to_owned(),
            profile: own_opt(profile),
        },
    )
}

/// Windows: the child does not share the parent's console.
pub const DETACHED_PROCESS: u32 = 0x0000_0008;

/// Windows: the child has a process group of its own.
pub const CREATE_NEW_PROCESS_GROUP: u32 = 0x0000_0200;

/// Windows: the child gets no window.
pub const CREATE_NO_WINDOW: u32 = 0x0800_0000;

/// The flags that Windows starts a background refresh with: it outlives the
/// parent's console, has no window, and is not interrupted with the parent.
pub fn bg_refresh_creation_flags() -> (r: u32)
    ensures
        r & DETACHED_PROCESS == DETACHED_PROCESS,
        r & CREATE_NEW_PROCESS_GROUP == CREATE_NEW_PROCESS_GROUP,
        r & CREATE_NO_WINDOW == CREATE_NO_WINDOW,
        r == 0x0800_0208,
{
    let r: u32 = DETACHED_PROCESS | CREATE_NEW_PROCESS_GROUP | CREATE_NO_WINDOW;
    assert(0x0000_0008u32 | 0x0000_0200u32 | 0x0800_0000u32 == 0x0800_0208u32) by (bit_vector);
    assert(0x0800_0208u32 & 0x0000_0008u32 == 0x0000_0008u32) by (bit_vector);
    assert(0x0800_0208u32 & 0x0000_0200u32 == 0x0000_0200u32) by (bit_vector);
    assert(0x0800_0208u32 & 0x0800_0000u32 == 0x0800_0000u32) by (bit_vector);
    r
}

/// The flags that Windows starts any other command with: it gets no window.
pub fn silent_creation_flags() -> (r: u32)
    ensures
        r == CREATE_NO_WINDOW,
{
    CREATE_NO_WINDOW
}

/// Once recorded, a repository's row is found under its identity, carries the
/// time of the refresh, and is stale by no threshold at that time. What was
/// captured is in it; what was not is what it was. No other row has changed.
pub proof fn law_recorded_row(
    cache: CacheView,
    repo: RepoView,
    git: Option<GitStatusView>,
    gh: Option<GhSnapshotView>,
    now: u64,
    threshold: u64,
)
    ensures
        ({
            let next = recorded(cache, repo, git, gh, now);
            let i = cache.upsert_index(repo);
            let was = cache.upserted(repo).rows[i];
            &&& 0 <= i < next.rows.len()
            &&& next.row_index(repo.key()) == i
            &&& next.rows[i].last_refreshed == Some(now)
            &&& !next.rows[i].is_stale(threshold, now)
            &&& git is Some ==> next.rows[i].git_status == git
            &&& git is None ==> next.rows[i].git_status == was.git_status
            &&& gh is Some ==> next.rows[i].gh == gh
            &&& gh is None ==> next.rows[i].gh == was.gh
            &&& forall|j: int|
                0 <= j < cache.rows.len() && j != i ==> #[trigger] next.rows[j] == cache.rows[j]
        }),
{
    law_upserted_row_is_found(cache, repo);
    let up = cache.upserted(repo);
    let next = recorded(cache, repo, git, gh, now);
    let i = cache.upsert_index(repo);
    let p = |r: RepoCacheView| r.key() == repo.key();
    lemma_first_index(up.rows, p);
    assert forall|j: int| 0 <= j < i implies !p(#[trigger] next.rows[j]) by {
        assert(next.rows[j] == up.rows[j]);
    }
    assert(p(next.rows[i]));
    lemma_is_first_index(next.rows, p, i);
    assert forall|j: int| 0 <= j < cache.rows.len() && j != i implies #[trigger] next.rows[j]
        == cache.rows[j] by {
        assert(next.rows[j] == up.rows[j]);
    }
}

/// A repository that was refreshed is passed over until the threshold has gone
/// by: its place in the cache is the one it has, and its row is not stale.
pub proof fn law_refreshed_row_is_passed_over(
    cache: CacheView,
    repo: RepoView,
    git: Option<GitStatusView>,
    gh: Option<GhSnapshotView>,
    now: u64,
    later: u64,
    threshold: u64,
)
    requires
        later - now <= threshold,
    ensures
        ({
            let next = recorded(cache, repo, git, gh, now);
            &&& next.upserted(repo) == next
            &&& !next.rows[next.upsert_index(repo)].is_stale(threshold, later)
        }),
{
    law_recorded_row(cache, repo, git, gh, now, threshold);
}

/// A refresh keeps the identities in the cache distinct.
pub proof fn law_refresh_keeps_distinct(
    cache: CacheView,
    repo: RepoView,
    git: Option<GitStatusView>,
    gh: Option<GhSnapshotView>,
    now: u64,
)
    requires
        cache.distinct(),
    ensures
        cache.upserted(repo).distinct(),
        recorded(cache, repo, git, gh, now).distinct(),
{
    law_upsert_keeps_distinct(cache, repo);
    law_upserted_row_is_found(cache, repo);
    let up = cache.upserted(repo);
    let next = recorded(cache, repo, git, gh, now);
    assert forall|a: int, b: int|
        #![trigger next.rows[a], next.rows[b]]
        0 <= a < b < next.rows.len() implies next.rows[a].key() != next.rows[b].key() by {
        assert(up.rows[a].key() == next.rows[a].key());
        assert(up.rows[b].key() == next.rows[b].key());
    }
}

/// A refresh changes neither what a row is of nor where its checkout is, nor the
/// version of the cache; it adds at most one row.
pub proof fn law_refresh_keeps_what_a_row_is_of(
    cache: CacheView,
    repo: RepoView,
    git: Option<GitStatusView>,
    gh: Option<GhSnapshotView>,
    now: u64,
)
    ensures
        ({
            let up = cache.upserted(repo);
            let next = recorded(cache, repo, git, gh, now);
            let i = cache.upsert_index(repo);
            &&& next.version == cache.version
            &&& next.rows.len() == up.rows.len()
            &&& next.rows[i].host == repo.host && next.rows[i].owner == repo.owner
                && next.rows[i].name == repo.name
            &&& next.rows[i].path == up.rows[i].path
        }),
{
    law_upserted_row_is_found(cache, repo);
}

/// The summary has a line for how many rows were refreshed, and one more for each
/// other count that is not zero and for the lack of a client. Each line that tells a
/// count begins with it, or has it behind its first word.
pub proof fn law_summary(
    counts: RefreshCounts,
    force: bool,
    threshold: u64,
    on_shelf: usize,
    has_client: bool,
)
    ensures
        ({
            let lines = summary_texts(counts, force, threshold, on_shelf, has_client);
            let a: int = if counts.skipped_threshold > 0 {
                1
            } else {
                0
            };
            let b: int = if counts.skipped_filter > 0 {
                1
            } else {
                0
            };
            let c: int = if counts.capture_errors > 0 {
                1
            } else {
                0
            };
            let d: int = if counts.gh_errors > 0 {
                1
            } else {
                0
            };
            let e: int = if has_client {
                0
            } else {
                1
            };
            &&& lines.len() == 1 + a + b + c + d + e
            &&& occurs_at(lines[0], decimal(counts.refreshed as nat), 10)
            &&& has(lines[0], decimal(on_shelf as nat))
            &&& a == 1 ==> occurs_at(lines[1], decimal(counts.skipped_threshold as nat), 0) && has(
                lines[1],
                decimal(threshold as nat),
            )
            &&& b == 1 ==> occurs_at(lines[1 + a], decimal(counts.skipped_filter as nat), 0)
            &&& c == 1 ==> occurs_at(lines[1 + a + b], decimal(counts.capture_errors as nat), 0)
            &&& d == 1 ==> occurs_at(lines[1 + a + b + c], decimal(counts.gh_errors as nat), 0)
        }),
{
    reveal_strlit("refreshed ");
    reveal_strlit(" on the shelf)");
    reveal_strlit(" fresh (within ");
    let lines = summary_texts(counts, force, threshold, on_shelf, has_client);
    let first = lines[0];
    let n = decimal(counts.refreshed as nat);
    assert(first.subrange(10, 10 + n.len() as int) =~= n);
    let shelf = decimal(on_shelf as nat);
    let at = first.len() - 14 - shelf.len();
    assert(first.subrange(at, at + shelf.len()) =~= shelf);
    assert(occurs_at(first, shelf, at));
    let a: int = if counts.skipped_threshold > 0 {
        1
    } else {
        0
    };
    let b: int = if counts.skipped_filter > 0 {
        1
    } else {
        0
    };
    let c: int = if counts.capture_errors > 0 {
        1
    } else {
        0
    };
    if a == 1 {
        let x = decimal(counts.skipped_threshold as nat);
        assert(lines[1].subrange(0, x.len() as int) =~= x);
        let t = decimal(threshold as nat);
        let k = x.len() as int + 15;
        assert(lines[1].subrange(k, k + t.len()) =~= t);
        assert(occurs_at(lines[1], t, k));
    }
    if b == 1 {
        let x = decimal(counts.skipped_filter as nat);
        assert(lines[1 + a].subrange(0, x.len() as int) =~= x);
    }
    if c == 1 {
        let x = decimal(counts.capture_errors as nat);
        assert(lines[1 + a + b].subrange(0, x.len() as int) =~= x);
    }
    if counts.gh_errors > 0 {
        let x = decimal(counts.gh_errors as nat);
        assert(lines[1 + a + b + c].subrange(0, x.len() as int) =~= x);
    }
}

/// The first line of the summary tells a forced refresh as such, one repository in the
/// singular, and any other number in the plural.
pub proof fn law_first_line_of_the_summary(
    counts: RefreshCounts,
    force: bool,
    threshold: u64,
    on_shelf: usize,
    has_client: bool,
)
    ensures
        ({
            let line = summary_texts(counts, force, threshold, on_shelf, has_client)[0];
            let at = 10 + decimal(counts.refreshed as nat).len() as int;
            let after = if force {
                at + 9
            } else {
                at
            };
            &&& force ==> occurs_at(line, " (forced)"@, at)
            &&& occurs_at(line, " repo"@, after)
            &&& (line[after + 5] == 's') == (counts.refreshed != 1)
        }),
{
    reveal_strlit("refreshed ");
    reveal_strlit(" (forced)");
    reveal_strlit(" repo");
    reveal_strlit("s");
    reveal_strlit("");
    reveal_strlit(" (");
    let n = decimal(counts.refreshed as nat);
    let forced = if force {
        " (forced)"@
    } else {
        ""@
    };
    let plural = if counts.refreshed == 1 {
        ""@
    } else {
        "s"@
    };
    let rest = " ("@ + decimal(on_shelf as nat) + " on the shelf)"@;
    let line = summary_texts(counts, force, threshold, on_shelf, has_client)[0];
    assert(line =~= "refreshed "@ + n + forced + " repo"@ + plural + rest);
    let at = 10 + n.len() as int;
    let after = at + forced.len();
    if force {
        assert(line.subrange(at, at + 9) =~= " (forced)"@);
    }
    assert(line.subrange(after, after + 5) =~= " repo"@);
    assert(rest[0] == ' ') by {
        assert(" ("@[0] == ' ');
    }
    assert("s"@[0] == 's');
    assert(line[after + 5] == (if counts.refreshed == 1 {
        rest[0]
    } else {
        's'
    }));
}

} // verus!
