//! `shoka clone`: a repository is fetched and put on the shelf.
//!
//! Without an input, one's own repositories or those of an owner are listed to
//! pick from. That needs a GitHub login; without one the input is asked for.
use vstd::prelude::*;
use vstd::string::*;

use crate::config::{
    law_where_a_repository_lives, ConfigError, ResolvedConfig, VcsDefault, DEFAULT_LAYOUT,
};
use crate::fspath::{parent, parent_of};
use crate::gh::RepoListItem;
use crate::remote::{
    clone_outcome, is_shorthand, parse_clone_input, parsed_url, parts_of, plain_url, platform_bound,
    spells, url_for, url_of_input, CloneInputError, InputFault, RemotePartsView,
};
use crate::seqs::lemma_first_index;
use crate::state::{Repo, RepoView, Shelf, ShelfView};
use crate::text::{
    ascii_folded, clone_texts, eq_ignore_ascii_case, has, law_case_of_letters, lemma_stands_between,
    lemma_told_in_order, occurs_at, opt_text, same_letter, texts, trim, trimmed,
};

verus! {

/// What fetches a repository.
#[derive(Debug, Clone, Copy, PartialEq, Eq, Structural)]
pub enum Backend {
    /// Git, in process.
    Git,
    /// The `jj` command.
    Jj,
}

/// What fetches a repository for a setting: jj only where it is asked for,
/// since there is nothing on disk yet to tell by.
pub open spec fn backend_for(vcs: VcsDefault) -> Backend {
    match vcs {
        VcsDefault::Jj => Backend::Jj,
        _ => Backend::Git,
    }
}

/// Why nothing was cloned.
#[derive(Debug)]
pub enum CloneError {
    /// The input names no repository.
    Input(CloneInputError),
    /// The repository's path does not render.
    Path(ConfigError),
    /// There is something at the destination already.
    Occupied(String),
    /// The destination cannot be looked at.
    Inspect { path: String, cause: String },
}

impl CloneError {
    /// The text of the message.
    pub open spec fn text(self) -> Seq<char> {
        match self {
            CloneError::Input(e) => e.text(),
            CloneError::Path(e) => e.text(),
            CloneError::Occupied(dest) => "destination "@ + dest@
                + " already exists and is not empty — refusing to clone over existing content"@,
            CloneError::Inspect { path, cause } => "inspecting "@ + path@ + ": "@ + cause@,
        }
    }

    /// The message shown to the user.
    pub fn message(&self) -> (r: String)
        ensures
            r@ == self.text(),
    {
        match self {
            CloneError::Input(e) => e.message(),
            CloneError::Path(e) => e.message(),
            CloneError::Occupied(dest) => "destination ".to_owned().concat(dest.as_str()).concat(
                " already exists and is not empty — refusing to clone over existing content",
            ),
            CloneError::Inspect { path, cause } => "inspecting ".to_owned().concat(
                path.as_str(),
            ).concat(": ").concat(cause.as_str()),
        }
    }
}

/// What to clone, from where, to where, and with what.
#[derive(Debug)]
pub struct ClonePlan {
    pub repo: Repo,
    pub url: String,
    pub dest: String,
    /// The directory that must be there first.
    pub parent: Option<String>,
    pub backend: Backend,
}

impl ClonePlan {
    /// The plan to clone the remote of this URL under a configuration.
    pub open spec fn clones(
        self,
        config: ResolvedConfig,
        url: Seq<char>,
        host: Seq<char>,
        owner: Seq<char>,
        name: Seq<char>,
    ) -> bool {
        let row = RepoView {
            host,
            owner,
            name,
            path: None,
            vcs: None,
            tags: Seq::empty(),
            note: None,
        };
        &&& self.repo@ == row
        &&& self.url@ == url
        &&& config.may_live_at(row, self.dest@)
        &&& opt_text(self.parent) == parent_of(self.dest@)
        &&& self.backend == backend_for(config.target_of(row.slug()).default_vcs)
    }
}

/// Whether `r` is what the parts of a remote and its URL lead to: the plan to
/// clone it, or that its path does not render.
pub open spec fn planned(
    cfg: ResolvedConfig,
    url: Seq<char>,
    parts: RemotePartsView,
    r: Result<ClonePlan, CloneError>,
) -> bool {
    match r {
        Ok(plan) => plan.clones(cfg, url, parts.host, parts.owner, parts.name),
        Err(e) => e matches CloneError::Path(c) && cfg.may_fail_with(
            RepoView {
                host: parts.host,
                owner: parts.owner,
                name: parts.name,
                path: None,
                vcs: None,
                tags: Seq::empty(),
                note: None,
            },
            c,
        ),
    }
}

/// What to clone for the parts of a remote and its URL.
pub fn plan_for(
    cfg: &ResolvedConfig,
    host: &str,
    owner: &str,
    name: &str,
    url: String,
) -> (r: Result<ClonePlan, CloneError>)
    ensures
        planned(*cfg, url@, (RemotePartsView { host: host@, owner: owner@, name: name@ }), r),
{
    let repo = Repo::new(host, owner, name);
    let dest = match cfg.clone_path_for_one(&repo) {
        Ok(dest) => dest,
        Err(e) => {
            return Err(CloneError::Path(e));
        },
    };
    let target = cfg.resolve_target(repo.slug().as_str());
    let backend = match target.default_vcs {
        VcsDefault::Jj => Backend::Jj,
        _ => Backend::Git,
    };
    let parent = parent(dest.as_str());
    Ok(ClonePlan { repo, url, dest, parent, backend })
}

/// Whether `r` is what a URL text and the outcome of parsing it lead to.
pub open spec fn plan_outcome(
    cfg: ResolvedConfig,
    url: Seq<char>,
    parsed: Result<(Option<Seq<char>>, Option<Seq<char>>), Seq<char>>,
    r: Result<ClonePlan, CloneError>,
) -> bool {
    match parsed {
        Ok((host, path)) => match parts_of(host, path) {
            Ok(parts) => planned(cfg, url, parts, r),
            Err(_) => r matches Err(CloneError::Input(e)) && clone_outcome(url, parsed, Err(e)),
        },
        Err(_) => r matches Err(CloneError::Input(e)) && clone_outcome(url, parsed, Err(e)),
    }
}

/// What to clone for an input: the remote that it names, at the place that the
/// configuration gives it.
pub fn clone_plan(cfg: &ResolvedConfig, input: &str) -> (r: Result<ClonePlan, CloneError>)
    ensures
        match url_of_input(input@, cfg.default_host@, cfg.default_protocol) {
            Err(InputFault::Empty) => r matches Err(CloneError::Input(CloneInputError::Empty)),
            Err(InputFault::Shape) => r matches Err(
                CloneError::Input(CloneInputError::Shape(t)),
            ) && t@ == trimmed(input@),
            Ok(url) => {
                &&& !platform_bound(url) ==> plan_outcome(*cfg, url, parsed_url(url), r)
                &&& exists|parsed: Result<(Option<Seq<char>>, Option<Seq<char>>), Seq<char>>| #[trigger]
                    plan_outcome(*cfg, url, parsed, r)
                &&& forall|host: Seq<char>, path: Seq<char>| #[trigger]
                    plain_url(url, host, path) ==> plan_outcome(
                        *cfg,
                        url,
                        Ok((Some(host), Some(path))),
                        r,
                    )
            },
        },
        forall|parts: RemotePartsView| #[trigger]
            is_shorthand(trimmed(input@), parts, cfg.default_host@, cfg.default_protocol)
                ==> planned(
                *cfg,
                url_for(parts.host, parts.owner, parts.name, cfg.default_protocol),
                parts,
                r,
            ),
        forall|parts: RemotePartsView| #[trigger]
            spells(trimmed(input@), parts) ==> planned(*cfg, trimmed(input@), parts, r),
{
    let found = parse_clone_input(input, cfg.default_host.as_str(), cfg.default_protocol);
    let ghost was = found;
    let ghost given = url_of_input(input@, cfg.default_host@, cfg.default_protocol);
    let (parts, url) = match found {
        Ok(found) => found,
        Err(e) => {
            let r: Result<ClonePlan, CloneError> = Err(CloneError::Input(e));
            proof {
                if let Ok(u) = given {
                    let p = choose|p: Result<(Option<Seq<char>>, Option<Seq<char>>), Seq<char>>|
                        #[trigger] clone_outcome(u, p, was);
                    assert(plan_outcome(*cfg, u, p, r));
                }
            }
            return r;
        },
    };
    let r = plan_for(cfg, parts.host.as_str(), parts.owner.as_str(), parts.name.as_str(), url);
    proof {
        let u = given->Ok_0;
        let p = choose|p: Result<(Option<Seq<char>>, Option<Seq<char>>), Seq<char>>| #[trigger]
            clone_outcome(u, p, was);
        assert(plan_outcome(*cfg, u, p, r));
    }
    r
}

/// What listing a destination gave.
#[derive(Debug)]
pub enum DestListing {
    /// There is no such directory.
    Missing,
    /// It holds nothing.
    Empty,
    /// It holds something.
    Occupied,
    /// It cannot be listed, for this reason.
    Unreadable(String),
}

/// Whether there is something at the destination: an empty directory does not
/// count.
pub fn dest_is_occupied(dest: &str, listing: DestListing) -> (r: Result<bool, CloneError>)
    ensures
        match listing {
            DestListing::Missing => r == Ok::<bool, CloneError>(false),
            DestListing::Empty => r == Ok::<bool, CloneError>(false),
            DestListing::Occupied => r == Ok::<bool, CloneError>(true),
            DestListing::Unreadable(e) => r matches Err(CloneError::Inspect { path, cause })
                && path@ == dest@ && cause@ == e@,
        },
{
    match listing {
        DestListing::Missing => Ok(false),
        DestListing::Empty => Ok(false),
        DestListing::Occupied => Ok(true),
        DestListing::Unreadable(cause) => Err(
            CloneError::Inspect { path: dest.to_owned(), cause },
        ),
    }
}

/// Whether the clone may go ahead: only where nothing is at the destination.
pub fn check_dest(dest: &str, listing: DestListing) -> (r: Result<(), CloneError>)
    ensures
        match listing {
            DestListing::Missing => r is Ok,
            DestListing::Empty => r is Ok,
            DestListing::Occupied => r matches Err(CloneError::Occupied(d)) && d@ == dest@,
            DestListing::Unreadable(e) => r matches Err(CloneError::Inspect { path, cause })
                && path@ == dest@ && cause@ == e@,
        },
{
    match dest_is_occupied(dest, listing) {
        Ok(true) => Err(CloneError::Occupied(dest.to_owned())),
        Ok(false) => Ok(()),
        Err(e) => Err(e),
    }
}

/// Puts a cloned repository on the shelf, unless a checkout of its remote is
/// there already, whose row is left as it is. Says whether it was put there.
pub fn clone_and_record(shelf: &mut Shelf, repo: Repo) -> (r: bool)
    ensures
        ({
            let known = old(shelf)@.remote_index(repo@.host, repo@.owner, repo@.name)
                < old(shelf)@.rows.len();
            &&& r == !known
            &&& final(shelf)@ == (if known {
                old(shelf)@
            } else {
                old(shelf)@.with(repo@)
            })
        }),
{
    let ghost before = shelf@;
    let ghost one = repo@;
    proof {
        let p = |r: RepoView| r.key().of_remote(one.host, one.owner, one.name);
        let q = |r: RepoView| r.key() == one.key();
        lemma_first_index(before.rows, p);
        lemma_first_index(before.rows, q);
        if before.row_index(one.key()) < before.rows.len() {
            let k = before.row_index(one.key());
            assert(p(before.rows[k]));
        }
    }
    if shelf.find(repo.host.as_str(), repo.owner.as_str(), repo.name.as_str()).is_some() {
        return false;
    }
    let _ = shelf.add(repo);
    true
}

/// What could be told of the user's GitHub login.
#[derive(Debug)]
pub enum Session {
    /// There is no token.
    NoToken,
    /// No client could be made.
    NoClient,
    /// The login could not be looked up.
    NoLogin,
    /// The login.
    Login(String),
}

/// The choice of a repository in progress.
#[derive(Debug)]
pub struct OwnerPrompt {
    pub personal_login: String,
    pub own_owners: Vec<String>,
    /// The owner that is meant when none is named in messages.
    pub default_owner: String,
    /// What the prompt offers; nothing once an owner turned out to have no
    /// repositories or not to exist.
    pub offered: Option<String>,
}

/// The first of the user's owners, or else their login.
pub open spec fn first_owner(own_owners: Seq<Seq<char>>, login: Seq<char>) -> Seq<char> {
    if own_owners.len() > 0 {
        own_owners[0]
    } else {
        login
    }
}

/// Starts the choice of a repository; without a login there is none, and the
/// input is to be asked for.
pub fn prompt_for_input(own_owners: &[String], session: Session) -> (r: Option<OwnerPrompt>)
    ensures
        match session {
            Session::Login(login) => r matches Some(p) && p.personal_login@ == login@ && texts(
                p.own_owners@,
            ) == texts(own_owners@) && p.default_owner@ == first_owner(texts(own_owners@), login@)
                && opt_text(p.offered) == Some(first_owner(texts(own_owners@), login@)),
            _ => r is None,
        },
{
    match session {
        Session::Login(login) => {
            let default_owner = if own_owners.len() > 0 {
                own_owners[0].clone()
            } else {
                login.clone()
            };
            let offered = Some(default_owner.clone());
            Some(
                OwnerPrompt {
                    personal_login: login,
                    own_owners: clone_texts(own_owners),
                    default_owner,
                    offered,
                },
            )
        },
        _ => None,
    }
}

/// Whose repositories are listed; without an owner, the user's own.
#[derive(Debug)]
pub struct OwnerQuery {
    pub owner: Option<String>,
    /// The owner is an organisation that the user belongs to.
    pub is_org: bool,
}

/// Whether some of the owners is `o`, in whatever case.
pub open spec fn is_own(own_owners: Seq<Seq<char>>, o: Seq<char>) -> bool {
    exists|i: int|
        0 <= i < own_owners.len() && ascii_folded(#[trigger] own_owners[i]) == ascii_folded(o)
}

/// Whether some of the owners is `o`, in whatever case.
pub fn owner_in(own_owners: &[String], o: &str) -> (r: bool)
    ensures
        r == is_own(texts(own_owners@), o@),
{
    let ghost all = texts(own_owners@);
    let mut i: usize = 0;
    while i < own_owners.len()
        invariant
            all == texts(own_owners@),
            i <= own_owners@.len(),
            forall|k: int| 0 <= k < i ==> ascii_folded(#[trigger] all[k]) != ascii_folded(o@),
        decreases own_owners@.len() - i,
    {
        assert(all[i as int] == own_owners@[i as int]@);
        if eq_ignore_ascii_case(own_owners[i].as_str(), o) {
            return true;
        }
        i = i + 1;
    }
    false
}

/// What came of listing repositories.
#[derive(Debug)]
pub enum Listing {
    Repos(Vec<RepoListItem>),
    /// There is no such owner.
    NotFound,
    /// Something else went wrong.
    Failed(String),
}

/// What to do after listing repositories.
#[derive(Debug)]
pub enum AfterListing {
    /// Say this, and ask for an owner again.
    AskAgain(String),
    /// Offer these.
    Pick(Vec<RepoListItem>),
    /// Give up, for this reason.
    Fail(String),
}

impl OwnerPrompt {
    /// Whose repositories an answer asks for: an empty one, and the user's own
    /// login in whatever case, ask for their own; one of the user's other
    /// owners is an organisation, and anything else another user.
    pub fn answer(&self, input: &str) -> (r: OwnerQuery)
        ensures
            ({
                let t = trimmed(input@);
                let mine = t.len() == 0 || ascii_folded(t) == ascii_folded(self.personal_login@);
                &&& opt_text(r.owner) == (if mine {
                    None
                } else {
                    Some(t)
                })
                &&& r.is_org == (!mine && is_own(texts(self.own_owners@), t))
            }),
    {
        let t = trim(input);
        if t.as_str().is_empty() || eq_ignore_ascii_case(t.as_str(), self.personal_login.as_str()) {
            return OwnerQuery { owner: None, is_org: false };
        }
        let is_org = owner_in(&self.own_owners, t.as_str());
        OwnerQuery { owner: Some(t), is_org }
    }

    /// The owner as messages name it.
    pub open spec fn named(self, owner: Option<Seq<char>>) -> Seq<char> {
        match owner {
            Some(o) => o,
            None => self.default_owner@,
        }
    }

    /// What to do after listing repositories. An owner without repositories,
    /// or one that does not exist, is asked for again, with nothing offered;
    /// any other failure ends the choice.
    pub fn listed(&mut self, query: &OwnerQuery, listing: Listing) -> (r: AfterListing)
        ensures
            final(self).personal_login@ == old(self).personal_login@,
            texts(final(self).own_owners@) == texts(old(self).own_owners@),
            final(self).default_owner@ == old(self).default_owner@,
            ({
                let who = old(self).named(opt_text(query.owner));
                match listing {
                    Listing::Repos(v) => if v@.len() == 0 {
                        &&& r matches AfterListing::AskAgain(m) && m@ == "no repos found for "@
                            + who + " — try another?"@
                        &&& final(self).offered is None
                    } else {
                        &&& r == AfterListing::Pick(v)
                        &&& final(self).offered == old(self).offered
                    },
                    Listing::NotFound => {
                        &&& r matches AfterListing::AskAgain(m) && m@ == "no such org or user: "@
                            + who + " — try another?"@
                        &&& final(self).offered is None
                    },
                    Listing::Failed(e) => {
                        &&& r matches AfterListing::Fail(m) && m@ == (match opt_text(query.owner) {
                            None => "listing your own repos: "@ + e@,
                            Some(o) => "listing repos for "@ + o + ": "@ + e@,
                        })
                        &&& final(self).offered == old(self).offered
                    },
                }
            }),
    {
        let who = match &query.owner {
            Some(o) => o.clone(),
            None => self.default_owner.clone(),
        };
        match listing {
            Listing::Repos(v) => {
                if v.len() == 0 {
                    self.offered = None;
                    AfterListing::AskAgain(
                        "no repos found for ".to_owned().concat(who.as_str()).concat(
                            " — try another?",
                        ),
                    )
                } else {
                    AfterListing::Pick(v)
                }
            },
            Listing::NotFound => {
                self.offered = None;
                AfterListing::AskAgain(
                    "no such org or user: ".to_owned().concat(who.as_str()).concat(
                        " — try another?",
                    ),
                )
            },
            Listing::Failed(e) => match &query.owner {
                None => AfterListing::Fail("listing your own repos: ".to_owned().concat(e.as_str())),
                Some(o) => AfterListing::Fail(
                    "listing repos for ".to_owned().concat(o.as_str()).concat(": ").concat(
                        e.as_str(),
                    ),
                ),
            },
        }
    }
}

/// The clone input for a repository that was picked.
pub fn picked_input(item: &RepoListItem) -> (r: String)
    ensures
        r@ == item@.owner + "/"@ + item@.name,
{
    item.owner.clone().concat("/").concat(item.name.as_str())
}

/// The clone input for an answer to the plain prompt; none when it is blank.
pub fn text_fallback_prompt(answer: String) -> (r: Option<String>)
    ensures
        r == (if trimmed(answer@).len() == 0 {
            None
        } else {
            Some(answer)
        }),
{
    let t = trim(answer.as_str());
    if t.as_str().is_empty() {
        None
    } else {
        Some(answer)
    }
}

/// Under the default layout a clone goes to `<root>/<host>/<owner>/<name>`, and
/// is always planned.
pub proof fn law_clone_goes_into_the_flat_tree(
    cfg: ResolvedConfig,
    url: Seq<char>,
    parts: RemotePartsView,
    r: Result<ClonePlan, CloneError>,
)
    requires
        planned(cfg, url, parts, r),
        cfg.target_of(parts.host + "/"@ + parts.owner + "/"@ + parts.name).layout
            == DEFAULT_LAYOUT@,
    ensures
        r matches Ok(plan) && plan.dest@ == cfg.target_of(
            parts.host + "/"@ + parts.owner + "/"@ + parts.name,
        ).root + "/"@ + parts.host + "/"@ + parts.owner + "/"@ + parts.name,
{
    let row = RepoView {
        host: parts.host,
        owner: parts.owner,
        name: parts.name,
        path: None,
        vcs: None,
        tags: Seq::empty(),
        note: None,
    };
    match r {
        Ok(plan) => {
            law_where_a_repository_lives(cfg, row, plan.dest@, arbitrary());
        },
        Err(e) => {
            law_where_a_repository_lives(cfg, row, Seq::empty(), e->Path_0);
        },
    }
}

/// Recording a clone keeps identities distinct, and a remote that is on the
/// shelf keeps its rows.
pub proof fn law_recording_keeps_distinct(shelf: ShelfView, repo: RepoView)
    requires
        shelf.distinct(),
        shelf.remote_index(repo.host, repo.owner, repo.name) == shelf.rows.len(),
    ensures
        shelf.with(repo).distinct(),
{
    let next = shelf.with(repo);
    let p = |r: RepoView| r.key().of_remote(repo.host, repo.owner, repo.name);
    lemma_first_index(shelf.rows, p);
    assert forall|a: int, b: int|
        #![trigger next.rows[a], next.rows[b]]
        0 <= a < b < next.rows.len() implies next.rows[a].key() != next.rows[b].key() by {
        assert(next.rows[a] == shelf.rows[a]);
        assert(!p(shelf.rows[a]));
        if b < shelf.rows.len() {
            assert(next.rows[b] == shelf.rows[b]);
        }
    }
}

/// jj fetches exactly where it is asked for.
pub proof fn law_backend(vcs: VcsDefault)
    ensures
        (backend_for(vcs) == Backend::Jj) == (vcs == VcsDefault::Jj),
        (backend_for(vcs) == Backend::Git) == (vcs == VcsDefault::Git || vcs == VcsDefault::Auto),
{
}

/// The owner that is offered is the first of the user's, and their login only where
/// they have named none.
pub proof fn law_first_owner(own_owners: Seq<Seq<char>>, owner: Seq<char>, login: Seq<char>)
    ensures
        first_owner(Seq::empty(), login) == login,
        first_owner(seq![owner] + own_owners, login) == owner,
{
    assert((seq![owner] + own_owners)[0] == owner);
}

/// An owner is one of the user's where it is one of those named, whatever the case of
/// the letters in either, and no other is.
pub proof fn law_own_owners(own_owners: Seq<Seq<char>>, one: Seq<char>, o: Seq<char>)
    ensures
        !is_own(Seq::empty(), o),
        is_own(own_owners.push(one), o) == (is_own(own_owners, o) || (one.len() == o.len()
            && forall|k: int| 0 <= k < o.len() ==> #[trigger] same_letter(one[k], o[k]))),
{
    let more = own_owners.push(one);
    law_case_of_letters(one, o);
    if is_own(own_owners, o) {
        let i = choose|i: int|
            0 <= i < own_owners.len() && ascii_folded(#[trigger] own_owners[i]) == ascii_folded(o);
        assert(more[i] == own_owners[i]);
    }
    assert(more[own_owners.len() as int] == one);
    if is_own(more, o) {
        let i = choose|i: int|
            0 <= i < more.len() && ascii_folded(#[trigger] more[i]) == ascii_folded(o);
        if i < own_owners.len() {
            assert(own_owners[i] == more[i]);
        }
    }
}

/// A plan clones the remote from its URL, into a row without anything set, with what
/// the target of its slug asks for, and makes the directory above the destination.
pub proof fn law_plan(
    plan: ClonePlan,
    cfg: ResolvedConfig,
    url: Seq<char>,
    parts: RemotePartsView,
    r: Result<ClonePlan, CloneError>,
)
    requires
        planned(cfg, url, parts, Ok(plan)),
        planned(cfg, url, parts, r),
    ensures
        plan.repo@.host == parts.host && plan.repo@.owner == parts.owner && plan.repo@.name
            == parts.name,
        plan.repo@.path is None && plan.repo@.vcs is None && plan.repo@.tags.len() == 0
            && plan.repo@.note is None,
        plan.url@ == url,
        opt_text(plan.parent) == parent_of(plan.dest@),
        (plan.backend == Backend::Jj) == (cfg.target_of(
            parts.host + "/"@ + parts.owner + "/"@ + parts.name,
        ).default_vcs == VcsDefault::Jj),
        r is Err ==> r->Err_0 is Path,
{
}

/// What is said where nothing was cloned names the destination, or what is wrong with
/// the input or the path.
pub proof fn law_messages_of_a_clone(e: CloneError)
    ensures
        e matches CloneError::Input(i) ==> has(e.text(), i.text()),
        e matches CloneError::Path(c) ==> has(e.text(), c.text()),
        e matches CloneError::Occupied(dest) ==> has(e.text(), dest@),
        e matches CloneError::Inspect { path, cause } ==> has(e.text(), path@ + ": "@ + cause@),
{
    match e {
        CloneError::Input(i) => {
            assert(occurs_at(e.text(), i.text(), 0)) by {
                assert(e.text().subrange(0, e.text().len() as int) =~= i.text());
            }
        },
        CloneError::Path(c) => {
            assert(occurs_at(e.text(), c.text(), 0)) by {
                assert(e.text().subrange(0, e.text().len() as int) =~= c.text());
            }
        },
        CloneError::Occupied(dest) => {
            lemma_stands_between(
                "destination "@,
                dest@,
                " already exists and is not empty — refusing to clone over existing content"@,
            );
        },
        CloneError::Inspect { path, cause } => {
            lemma_told_in_order("inspecting "@, path@, ": "@, cause@);
        },
    }
}

/// Messages name the owner that was asked for, and the default one where none was.
pub proof fn law_owner_in_messages(prompt: OwnerPrompt, owner: Seq<char>)
    ensures
        prompt.named(Some(owner)) == owner,
        prompt.named(None) == prompt.default_owner@,
{
}

} // verus!
