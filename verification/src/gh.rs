//! What GitHub reports of a repository, and what the pickers show of it.
use vstd::prelude::*;
use vstd::string::*;

use crate::seqs::{lemma_filter_selects, selects, selects_at, views};
use crate::text::{
    decimal, decimal_of, has, is_number, join, joined, law_decimal_reads_back, number_read,
    occurs_at, opt_str, opt_text, same_text, texts, trim, trimmed,
};

verus! {

/// How many trailing weeks of commit activity a snapshot keeps.
pub const ACTIVITY_WEEKS: usize = 12;

/// Conclusion of a workflow run, as the dashboard tells it.
#[derive(Debug, Clone, Copy, PartialEq, Eq, Structural)]
pub enum CiStatus {
    Success,
    Failure,
    Pending,
    Skipped,
    /// Anything else (cancelled, timed out, action required, ...).
    Other,
}

/// GitHub state of one repository. An absent field means "not captured" or
/// "no data", which is told apart from a definite zero.
#[derive(Debug, PartialEq, Eq)]
pub struct GhSnapshot {
    /// Open pull requests.
    pub open_pr_count: Option<usize>,
    /// Conclusion of the most recent workflow run.
    pub ci_status: Option<CiStatus>,
    /// Weekly commit counts, oldest first, at most [`ACTIVITY_WEEKS`] of them.
    pub weekly_commits: Option<Vec<u32>>,
}

/// The contents of a [`GhSnapshot`].
#[verifier::ext_equal]
pub struct GhSnapshotView {
    pub open_pr_count: Option<usize>,
    pub ci_status: Option<CiStatus>,
    pub weekly_commits: Option<Seq<u32>>,
}

impl View for GhSnapshot {
    type V = GhSnapshotView;

    open spec fn view(&self) -> GhSnapshotView {
        GhSnapshotView {
            open_pr_count: self.open_pr_count,
            ci_status: self.ci_status,
            weekly_commits: match self.weekly_commits {
                Some(w) => Some(w@),
                None => None,
            },
        }
    }
}

impl Clone for GhSnapshot {
    fn clone(&self) -> (r: Self)
        ensures
            r@ == self@,
    {
        let weekly_commits = match &self.weekly_commits {
            Some(w) => {
                let mut copy: Vec<u32> = Vec::new();
                let mut i: usize = 0;
                while i < w.len()
                    invariant
                        i <= w@.len(),
                        copy@ == w@.take(i as int),
                    decreases w@.len() - i,
                {
                    copy.push(w[i]);
                    i = i + 1;
                }
                assert(copy@ =~= w@);
                Some(copy)
            },
            None => None,
        };
        GhSnapshot { open_pr_count: self.open_pr_count, ci_status: self.ci_status, weekly_commits }
    }
}

/// The last [`ACTIVITY_WEEKS`] counts of a year's activity, oldest first; none
/// where nothing was measured.
pub open spec fn recent_weeks(weeks: Seq<u32>) -> Option<Seq<u32>> {
    if weeks.len() == 0 {
        None
    } else if weeks.len() <= ACTIVITY_WEEKS {
        Some(weeks)
    } else {
        Some(weeks.skip(weeks.len() - ACTIVITY_WEEKS))
    }
}

/// The trailing weeks of an activity listing.
pub fn recent_weekly_commits(weeks: &[u32]) -> (r: Option<Vec<u32>>)
    ensures
        match r {
            Some(v) => recent_weeks(weeks@) == Some(v@),
            None => recent_weeks(weeks@) is None,
        },
{
    if weeks.len() == 0 {
        return None;
    }
    let start: usize = if weeks.len() > ACTIVITY_WEEKS {
        weeks.len() - ACTIVITY_WEEKS
    } else {
        0
    };
    let mut tail: Vec<u32> = Vec::new();
    let mut i: usize = start;
    while i < weeks.len()
        invariant
            start <= i <= weeks@.len(),
            tail@ == weeks@.subrange(start as int, i as int),
        decreases weeks@.len() - i,
    {
        tail.push(weeks[i]);
        i = i + 1;
    }
    assert(tail@ =~= recent_weeks(weeks@)->0);
    Some(tail)
}

/// The snapshot made of the three answers: pull requests and the latest run
/// must have been answered, the activity need not.
pub fn snapshot_of(
    open_pr_count: usize,
    ci_status: Option<CiStatus>,
    weeks: Option<Vec<u32>>,
) -> (r: GhSnapshot)
    ensures
        r@ == (GhSnapshotView {
            open_pr_count: Some(open_pr_count),
            ci_status,
            weekly_commits: match weeks {
                Some(w) => recent_weeks(w@),
                None => None,
            },
        }),
{
    let weekly_commits = match weeks {
        Some(w) => recent_weekly_commits(&w),
        None => None,
    };
    GhSnapshot { open_pr_count: Some(open_pr_count), ci_status, weekly_commits }
}

/// The two fields of a workflow run that classify it.
#[derive(Debug, Clone)]
pub struct RunMinimal {
    pub status: String,
    pub conclusion: Option<String>,
}

/// A run that has not completed yet.
pub open spec fn run_is_open(status: Seq<char>) -> bool {
    status == "queued"@ || status == "in_progress"@ || status == "waiting"@ || status
        == "requested"@ || status == "pending"@
}

/// How a run is told on the dashboard.
pub open spec fn ci_of(status: Seq<char>, conclusion: Option<Seq<char>>) -> CiStatus {
    if run_is_open(status) {
        CiStatus::Pending
    } else if conclusion == Some("success"@) {
        CiStatus::Success
    } else if conclusion == Some("failure"@) {
        CiStatus::Failure
    } else if conclusion == Some("skipped"@) || conclusion == Some("neutral"@) {
        CiStatus::Skipped
    } else {
        CiStatus::Other
    }
}

/// How a run is told on the dashboard: an open run is pending, a completed one
/// goes by its conclusion.
pub fn classify_ci(run: &RunMinimal) -> (r: CiStatus)
    ensures
        r == ci_of(run.status@, opt_text(run.conclusion)),
{
    let s = run.status.as_str();
    if same_text(s, "queued") || same_text(s, "in_progress") || same_text(s, "waiting")
        || same_text(s, "requested") || same_text(s, "pending") {
        return CiStatus::Pending;
    }
    match &run.conclusion {
        None => CiStatus::Other,
        Some(c) => {
            let c = c.as_str();
            if same_text(c, "success") {
                CiStatus::Success
            } else if same_text(c, "failure") {
                CiStatus::Failure
            } else if same_text(c, "skipped") || same_text(c, "neutral") {
                CiStatus::Skipped
            } else {
                CiStatus::Other
            }
        },
    }
}

/// The state of the newest run of a listing, which is its first; none where
/// there is no run.
pub fn latest_ci_status(runs: &[RunMinimal]) -> (r: Option<CiStatus>)
    ensures
        r == (if runs@.len() == 0 {
            None
        } else {
            Some(ci_of(runs@[0].status@, opt_text(runs@[0].conclusion)))
        }),
{
    if runs.len() == 0 {
        None
    } else {
        Some(classify_ci(&runs[0]))
    }
}

/// One issue or pull request as a picker shows it and acts on it.
#[derive(Debug, Clone, PartialEq, Eq)]
pub struct PickerItem {
    pub number: u64,
    pub title: String,
    pub html_url: String,
    pub labels: Vec<String>,
}

/// The contents of a [`PickerItem`].
#[verifier::ext_equal]
pub struct PickerItemView {
    pub number: u64,
    pub title: Seq<char>,
    pub html_url: Seq<char>,
    pub labels: Seq<Seq<char>>,
}

impl View for PickerItem {
    type V = PickerItemView;

    open spec fn view(&self) -> PickerItemView {
        PickerItemView {
            number: self.number,
            title: self.title@,
            html_url: self.html_url@,
            labels: texts(self.labels@),
        }
    }
}

impl PickerItemView {
    /// The line that the picker's filter is matched against.
    pub open spec fn search_key(self) -> Seq<char> {
        let head = "#"@ + decimal(self.number as nat) + " "@ + self.title;
        if self.labels.len() == 0 {
            head
        } else {
            head + " ["@ + joined(self.labels, ","@) + "]"@
        }
    }
}

impl PickerItem {
    /// The line that the picker's filter is matched against: number, title
    /// and labels.
    pub fn search_key(&self) -> (r: String)
        ensures
            r@ == self@.search_key(),
    {
        let head = "#".to_owned().concat(decimal_of(self.number).as_str()).concat(" ").concat(
            self.title.as_str(),
        );
        if self.labels.len() == 0 {
            head
        } else {
            head.concat(" [").concat(join(&self.labels, ",").as_str()).concat("]")
        }
    }
}

/// One element of an issue listing, in which GitHub also lists the pull
/// requests.
#[derive(Debug, Clone)]
pub struct ListedItem {
    pub item: PickerItem,
    pub is_pull_request: bool,
}

/// The issues among the listed items, in order.
pub open spec fn issues_among(items: Seq<ListedItem>) -> Seq<PickerItemView>
    decreases items.len(),
{
    if items.len() == 0 {
        Seq::empty()
    } else {
        let front = issues_among(items.drop_last());
        if items.last().is_pull_request {
            front
        } else {
            front.push(items.last().item@)
        }
    }
}

/// The open issues of a listing: everything that is not a pull request, in
/// order.
pub fn list_open_issues(items: Vec<ListedItem>) -> (r: Vec<PickerItem>)
    ensures
        views(r@) == issues_among(items@),
{
    let mut out: Vec<PickerItem> = Vec::new();
    let ghost all = items@;
    assert(views(out@) =~= issues_among(all.take(0)));
    for x in it: items
        invariant
            it.seq() == all,
            views(out@) == issues_among(all.take(it.index() as int)),
    {
        let ghost i = it.index() as int;
        assert(all.take(i + 1).drop_last() =~= all.take(i));
        assert(all.take(i + 1).last() == x);
        if !x.is_pull_request {
            let ghost was = views(out@);
            let ghost one = x.item@;
            out.push(x.item);
            assert(views(out@) =~= was.push(one));
        }
    }
    assert(all.take(all.len() as int) =~= all);
    out
}

/// One repository of an account's listing.
#[derive(Debug, Clone)]
pub struct RepoListItem {
    pub owner: String,
    pub name: String,
    pub description: Option<String>,
    pub archived: bool,
}

/// The contents of a [`RepoListItem`].
#[verifier::ext_equal]
pub struct RepoListItemView {
    pub owner: Seq<char>,
    pub name: Seq<char>,
    pub description: Option<Seq<char>>,
    pub archived: bool,
}

impl View for RepoListItem {
    type V = RepoListItemView;

    open spec fn view(&self) -> RepoListItemView {
        RepoListItemView {
            owner: self.owner@,
            name: self.name@,
            description: opt_text(self.description),
            archived: self.archived,
        }
    }
}

impl RepoListItemView {
    /// The line shown for the repository.
    pub open spec fn line(self) -> Seq<char> {
        let slug = self.owner + "/"@ + self.name;
        match self.description {
            Some(d) => if d.len() > 0 {
                slug + "  —  "@ + d
            } else {
                slug
            },
            None => slug,
        }
    }
}

impl RepoListItem {
    /// The line shown for the repository: `owner/name`, and the description
    /// where there is one.
    pub fn display(&self) -> (r: String)
        ensures
            r@ == self@.line(),
    {
        let slug = self.owner.clone().concat("/").concat(self.name.as_str());
        match &self.description {
            Some(d) => {
                if d.as_str().is_empty() {
                    slug
                } else {
                    slug.concat("  —  ").concat(d.as_str())
                }
            },
            None => slug,
        }
    }
}

/// The repositories that are not archived, in order.
pub open spec fn unarchived(items: Seq<RepoListItemView>) -> Seq<RepoListItemView> {
    items.filter(|r: RepoListItemView| !r.archived)
}

/// The repositories that are not archived, in order.
pub fn without_archived(items: Vec<RepoListItem>) -> (r: Vec<RepoListItem>)
    ensures
        views(r@) == unarchived(views(items@)),
{
    let mut out: Vec<RepoListItem> = Vec::new();
    let ghost all = items@;
    let ghost p = |r: RepoListItemView| !r.archived;
    assert(views(all).take(0) =~= Seq::empty());
    reveal(Seq::filter);
    assert(views(out@) =~= views(all).take(0).filter(p));
    for x in it: items
        invariant
            it.seq() == all,
            p == (|r: RepoListItemView| !r.archived),
            views(out@) == views(all).take(it.index() as int).filter(p),
    {
        reveal(Seq::filter);
        let ghost i = it.index() as int;
        assert(views(all).take(i + 1).drop_last() =~= views(all).take(i));
        assert(views(all).take(i + 1).last() == x@);
        if !x.archived {
            let ghost was = views(out@);
            let ghost one = x@;
            out.push(x);
            assert(views(out@) =~= was.push(one));
        }
    }
    assert(views(all).take(all.len() as int) =~= views(all));
    out
}

/// A listing request: the route, and the names and values of its parameters.
#[derive(Debug, Clone)]
pub struct ListRequest {
    pub route: String,
    pub params: Vec<(&'static str, &'static str)>,
}

/// The route that lists an account's repositories.
pub open spec fn repos_route(owner: Option<Seq<char>>, is_org: bool) -> Seq<char> {
    match owner {
        None => "/user/repos"@,
        Some(o) => if is_org {
            "/orgs/"@ + o + "/repos"@
        } else {
            "/users/"@ + o + "/repos"@
        },
    }
}

/// The parameters' texts.
pub open spec fn param_texts(params: Seq<(&'static str, &'static str)>) -> Seq<
    (Seq<char>, Seq<char>),
> {
    params.map_values(|p: (&'static str, &'static str)| (p.0@, p.1@))
}

/// The request that lists repositories: one's own (private ones too) without
/// an owner, an organisation's, or another user's. Most recently updated
/// first, at most a hundred.
pub fn list_repos(owner: Option<&str>, is_org: bool) -> (r: ListRequest)
    ensures
        r.route@ == repos_route(opt_str(owner), is_org),
        param_texts(r.params@) == (if owner is None {
            seq![("affiliation"@, "owner"@), ("sort"@, "updated"@), ("per_page"@, "100"@)]
        } else {
            seq![("sort"@, "updated"@), ("per_page"@, "100"@)]
        }),
{
    match owner {
        None => {
            let params = vec![("affiliation", "owner"), ("sort", "updated"), ("per_page", "100")];
            let r = ListRequest { route: "/user/repos".to_owned(), params };
            assert(param_texts(r.params@) =~= seq![
                ("affiliation"@, "owner"@),
                ("sort"@, "updated"@),
                ("per_page"@, "100"@),
            ]);
            r
        },
        Some(o) => {
            let route = if is_org {
                "/orgs/".to_owned().concat(o).concat("/repos")
            } else {
                "/users/".to_owned().concat(o).concat("/repos")
            };
            let params = vec![("sort", "updated"), ("per_page", "100")];
            let r = ListRequest { route, params };
            assert(param_texts(r.params@) =~= seq![("sort"@, "updated"@), ("per_page"@, "100"@)]);
            r
        },
    }
}

/// The route of one of a repository's resources.
pub fn repo_route(owner: &str, name: &str, resource: &str) -> (r: String)
    ensures
        r@ == "/repos/"@ + owner@ + "/"@ + name@ + "/"@ + resource@,
{
    "/repos/".to_owned().concat(owner).concat("/").concat(name).concat("/").concat(resource)
}

/// The token from the environment where it is set and not empty; otherwise
/// what the `gh` command printed, without the white space around it, where
/// that is not empty.
pub fn resolve_token(env: Option<String>, gh_output: Option<String>) -> (r: Option<String>)
    ensures
        opt_text(r) == (if env is Some && env->0@.len() > 0 {
            Some(env->0@)
        } else if gh_output is Some && trimmed(gh_output->0@).len() > 0 {
            Some(trimmed(gh_output->0@))
        } else {
            None
        }),
{
    match env {
        Some(t) => {
            if !t.as_str().is_empty() {
                return Some(t);
            }
        },
        None => {},
    }
    match gh_output {
        Some(out) => {
            let t = trim(out.as_str());
            if t.as_str().is_empty() {
                None
            } else {
                Some(t)
            }
        },
        None => None,
    }
}

/// Of an activity listing the last twelve weeks are kept, or all where there are
/// fewer, in order; nothing is made of an empty one.
pub proof fn law_recent_weeks(weeks: Seq<u32>)
    ensures
        recent_weeks(weeks) is None == (weeks.len() == 0),
        recent_weeks(weeks) is Some ==> {
            let kept = recent_weeks(weeks)->0;
            &&& kept.len() <= 12
            &&& kept.len() == weeks.len() || kept.len() == 12
            &&& forall|i: int|
                0 <= i < kept.len() ==> #[trigger] kept[i] == weeks[weeks.len() - kept.len() + i]
        },
{
}

/// A run that is not over yet is pending, whatever its conclusion. Of the others
/// the conclusion decides alone: success and failure as such, a skipped or a neutral
/// run as skipped, and any other, or none, as something else.
pub proof fn law_runs(status: Seq<char>, conclusion: Option<Seq<char>>)
    ensures
        ({
            let pending = status == "queued"@ || status == "in_progress"@ || status == "waiting"@
                || status == "requested"@ || status == "pending"@;
            let told = ci_of(status, conclusion);
            &&& (told == CiStatus::Pending) == pending
            &&& (told == CiStatus::Success) == (!pending && conclusion == Some("success"@))
            &&& (told == CiStatus::Failure) == (!pending && conclusion == Some("failure"@))
            &&& (told == CiStatus::Skipped) == (!pending && (conclusion == Some("skipped"@)
                || conclusion == Some("neutral"@)))
        }),
{
    reveal_strlit("success");
    reveal_strlit("failure");
    reveal_strlit("skipped");
    reveal_strlit("neutral");
    assert("success"@[1] == 'u' && "failure"@[0] == 'f' && "skipped"@[1] == 'k' && "neutral"@[0]
        == 'n' && "success"@[0] == 's' && "skipped"@[0] == 's');
}

/// What the filter of a picker is matched against holds the number, the title and
/// every label of the item.
pub proof fn law_search_key(item: PickerItemView)
    ensures
        ({
            let key = item.search_key();
            &&& exists|n: int|
                {
                    &&& 1 < n < key.len()
                    &&& key[0] == '#' && is_number(key.subrange(1, n)) && number_read(
                        #[trigger] key.subrange(1, n),
                    ) == item.number
                    &&& key[n] == ' ' && occurs_at(key, item.title, n + 1)
                }
            &&& has(key, item.title)
            &&& forall|i: int| 0 <= i < item.labels.len() ==> has(key, #[trigger] item.labels[i])
            &&& item.labels.len() == 0 ==> key.len() == decimal(item.number as nat).len() + 2
                + item.title.len()
        }),
{
    reveal_strlit("#");
    reveal_strlit(" ");
    reveal_strlit(" [");
    reveal_strlit("]");
    let key = item.search_key();
    let digits = decimal(item.number as nat);
    law_decimal_reads_back(item.number as nat);
    let n = 1 + digits.len() as int;
    assert(key.subrange(1, n) =~= digits);
    assert(key[0] == "#"@[0] && key[n] == " "@[0]);
    assert(key.subrange(n + 1, n + 1 + item.title.len()) =~= item.title);
    assert(occurs_at(key, item.title, n + 1));
    assert forall|i: int| 0 <= i < item.labels.len() implies has(
        key,
        #[trigger] item.labels[i],
    ) by {
        let at = lemma_joined_holds(item.labels, ","@, i);
        let all = joined(item.labels, ","@);
        let from = n + 1 + item.title.len() + 2;
        assert(key.subrange(from, from + all.len()) =~= all);
        let l = item.labels[i];
        assert(key.subrange(from + at, from + at + l.len()) =~= all.subrange(at, at + l.len()));
        assert(occurs_at(key, l, from + at));
    }
}

proof fn lemma_joined_holds(parts: Seq<Seq<char>>, sep: Seq<char>, i: int) -> (at: int)
    requires
        0 <= i < parts.len(),
    ensures
        occurs_at(joined(parts, sep), parts[i], at),
    decreases parts.len(),
{
    let all = joined(parts, sep);
    let last = parts.last();
    if i == parts.len() - 1 {
        let at = all.len() - last.len();
        assert(all.subrange(at, all.len() as int) =~= last);
        at
    } else {
        let front = parts.drop_last();
        let at = lemma_joined_holds(front, sep, i);
        let l = parts[i];
        assert(front[i] == l);
        assert(all.subrange(at, at + l.len()) =~= joined(front, sep).subrange(at, at + l.len()));
        at
    }
}

/// Not a pull request.
pub open spec fn is_issue() -> spec_fn(ListedItem) -> bool {
    |x: ListedItem| !x.is_pull_request
}

/// The issues of a listing are its items that are no pull requests: all of them, in
/// order, and nothing else.
pub proof fn law_issues(items: Seq<ListedItem>)
    ensures
        exists|out: Seq<ListedItem>| #[trigger]
            selects(items, is_issue(), out) && issues_among(items) == out.map_values(
                |x: ListedItem| x.item@,
            ),
{
    let out = items.filter(is_issue());
    let at = lemma_filter_selects(items, is_issue());
    lemma_issues(items);
}

proof fn lemma_issues(items: Seq<ListedItem>)
    ensures
        issues_among(items) == items.filter(is_issue()).map_values(|x: ListedItem| x.item@),
    decreases items.len(),
{
    reveal(Seq::filter);
    if items.len() > 0 {
        lemma_issues(items.drop_last());
    }
    assert(issues_among(items) =~= items.filter(is_issue()).map_values(|x: ListedItem| x.item@));
}

/// Not archived.
pub open spec fn is_live() -> spec_fn(RepoListItemView) -> bool {
    |r: RepoListItemView| r.archived == false
}

/// Leaving the archived repositories out keeps all others, in order.
pub proof fn law_archived_are_left_out(items: Seq<RepoListItemView>)
    ensures
        selects(items, is_live(), unarchived(items)),
{
    let p = |r: RepoListItemView| !r.archived;
    let at = lemma_filter_selects(items, p);
    assert(selects_at(items, is_live(), unarchived(items), at));
}

/// A repository is shown as `owner/name`, and its description follows where it has
/// one that is not empty; otherwise nothing does.
pub proof fn law_line_of_a_repository(item: RepoListItemView)
    ensures
        ({
            let slug = item.owner + "/"@ + item.name;
            &&& occurs_at(item.line(), slug, 0)
            &&& item.description is Some ==> has(item.line(), item.description->0)
            &&& (item.line() == slug) == (item.description is None || item.description->0.len()
                == 0)
        }),
{
    reveal_strlit("  —  ");
    let slug = item.owner + "/"@ + item.name;
    let line = item.line();
    assert(line.subrange(0, slug.len() as int) =~= slug);
    if let Some(d) = item.description {
        let at = line.len() - d.len();
        assert(line.subrange(at, at + d.len()) =~= d);
        assert(occurs_at(line, d, at));
    }
}

/// The route of a listing names the account: an organisation under `/orgs/`, another
/// user under `/users/`. Without an account it is that of one's own repositories,
/// whatever the kind.
pub proof fn law_route_of_a_listing(owner: Seq<char>, is_org: bool)
    ensures
        ({
            let route = repos_route(Some(owner), is_org);
            let n = route.len() as int;
            &&& occurs_at(route, "/orgs/"@, 0) == is_org
            &&& occurs_at(route, "/users/"@, 0) == !is_org
            &&& occurs_at(route, "/repos"@, n - 6)
            &&& route.subrange(
                if is_org {
                    6
                } else {
                    7
                },
                n - 6,
            ) == owner
        }),
        repos_route(None, is_org) == "/user/repos"@,
{
    reveal_strlit("/orgs/");
    reveal_strlit("/users/");
    reveal_strlit("/repos");
    let route = repos_route(Some(owner), is_org);
    let n = route.len() as int;
    assert("/orgs/"@[1] == 'o' && "/users/"@[1] == 'u');
    assert(route.subrange(n - 6, n) =~= "/repos"@);
    if is_org {
        assert(route.subrange(0, 6) =~= "/orgs/"@);
        assert(route.subrange(6, n - 6) =~= owner);
        assert(route.subrange(0, 7)[1] == 'o');
    } else {
        assert(route.subrange(0, 7) =~= "/users/"@);
        assert(route.subrange(7, n - 6) =~= owner);
        assert(route.subrange(0, 6)[1] == 'u');
    }
}

} // verus!
