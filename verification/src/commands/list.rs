//! `shoka list`: what is on the shelf.
use vstd::prelude::*;
use vstd::string::*;

use crate::cli::ListArgs;
use crate::config::{ConfigError, ResolvedConfig, VcsDefault};
use crate::fspath::{join as join_path, path_join};
use crate::seqs::views;
use crate::state::{has_all_tags, Repo, RepoView, Shelf};
use crate::text::{decimal, decimal_of, join, joined, texts};

verus! {

/// Whether a row is listed: it carries the wanted tags and, where that is
/// asked for, its `AGENTS.md` is there.
pub open spec fn listed(row: RepoView, tags: Seq<Seq<char>>, has_agents: bool, agents: bool) -> bool {
    row.has_all_tags(tags) && (has_agents ==> agents)
}

/// The rows that are listed, in order, given for each whether its `AGENTS.md`
/// is there.
pub open spec fn listed_rows(
    rows: Seq<RepoView>,
    tags: Seq<Seq<char>>,
    has_agents: bool,
    agents: Seq<bool>,
) -> Seq<RepoView>
    decreases rows.len(),
{
    if rows.len() == 0 {
        Seq::empty()
    } else {
        let front = listed_rows(rows.drop_last(), tags, has_agents, agents);
        if listed(rows.last(), tags, has_agents, agents[rows.len() - 1]) {
            front.push(rows.last())
        } else {
            front
        }
    }
}

/// The rows that are listed, in shelf order. Where `AGENTS.md` is asked for,
/// `agents` says for each row whether it is there.
pub fn filter_repos<'s>(shelf: &'s Shelf, args: &ListArgs, agents: &[bool]) -> (r: Vec<&'s Repo>)
    requires
        args.has_agents ==> agents@.len() == shelf@.rows.len(),
    ensures
        views(r@) == listed_rows(shelf@.rows, texts(args.tags@), args.has_agents, agents@),
{
    let ghost tags = texts(args.tags@);
    let ghost rows = shelf@.rows;
    let mut out: Vec<&'s Repo> = Vec::new();
    let mut i: usize = 0;
    assert(views(out@) =~= listed_rows(rows.take(0), tags, args.has_agents, agents@));
    while i < shelf.repos.len()
        invariant
            rows == shelf@.rows,
            tags == texts(args.tags@),
            args.has_agents ==> agents@.len() == rows.len(),
            i <= shelf.repos@.len(),
            views(out@) == listed_rows(rows.take(i as int), tags, args.has_agents, agents@),
        decreases shelf.repos@.len() - i,
    {
        let repo = &shelf.repos[i];
        assert(rows.take(i + 1).drop_last() =~= rows.take(i as int));
        assert(rows.take(i + 1).last() == repo@);
        if has_all_tags(repo, &args.tags) && (!args.has_agents || agents[i]) {
            let ghost was = views(out@);
            out.push(repo);
            assert(views(out@) =~= was.push(repo@));
        }
        i = i + 1;
    }
    assert(rows.take(i as int) =~= rows);
    out
}

/// Where a row's `AGENTS.md` would be.
pub fn agents_file(resolved: &ResolvedConfig, repo: &Repo) -> (r: Result<String, ConfigError>)
    ensures
        match r {
            Ok(file) => exists|path: Seq<char>| #[trigger]
                resolved.may_live_at(repo@, path) && file@ == path_join(path, "AGENTS.md"@),
            Err(e) => resolved.may_fail_with(repo@, e),
        },
{
    match resolved.clone_path_for(repo) {
        Ok(path) => {
            let file = join_path(path.as_str(), "AGENTS.md");
            assert(resolved.may_live_at(repo@, path@));
            Ok(file)
        },
        Err(e) => Err(e),
    }
}

/// A line under a repository: what it tells, and the value.
#[derive(Debug)]
pub struct MetaLine {
    pub label: &'static str,
    pub value: String,
}

/// The text of a line under a repository.
pub open spec fn meta_text(line: MetaLine) -> (Seq<char>, Seq<char>) {
    (line.label@, line.value@)
}

/// The lines' texts.
pub open spec fn meta_texts(lines: Seq<MetaLine>) -> Seq<(Seq<char>, Seq<char>)> {
    lines.map_values(|l: MetaLine| meta_text(l))
}

/// The name of a version control setting in listings.
pub open spec fn vcs_name(v: VcsDefault) -> Seq<char> {
    match v {
        VcsDefault::Auto => "Auto"@,
        VcsDefault::Git => "Git"@,
        VcsDefault::Jj => "Jj"@,
    }
}

/// One optional line.
pub open spec fn meta_if(value: Option<Seq<char>>, label: Seq<char>) -> Seq<
    (Seq<char>, Seq<char>),
> {
    match value {
        Some(v) => seq![(label, v)],
        None => Seq::empty(),
    }
}

/// What is listed under a repository: its path, and what else is set.
pub open spec fn lines_of(repo: RepoView, path: Seq<char>) -> Seq<(Seq<char>, Seq<char>)> {
    seq![("path :"@, path)] + meta_if(
        if repo.tags.len() > 0 {
            Some(joined(repo.tags, " "@))
        } else {
            None
        },
        "tags :"@,
    ) + meta_if(
        match repo.vcs {
            Some(v) => Some(vcs_name(v)),
            None => None,
        },
        "vcs  :"@,
    ) + meta_if(repo.note, "note :"@)
}

/// What is listed under a repository.
pub fn print_repo(repo: &Repo, path: &str) -> (r: Vec<MetaLine>)
    ensures
        meta_texts(r@) == lines_of(repo@, path@),
{
    let mut out: Vec<MetaLine> = Vec::new();
    out.push(MetaLine { label: "path :", value: path.to_owned() });
    assert(meta_texts(out@) =~= seq![("path :"@, path@)]);
    if repo.tags.len() > 0 {
        let ghost was = meta_texts(out@);
        let value = join(&repo.tags, " ");
        out.push(MetaLine { label: "tags :", value });
        assert(meta_texts(out@) =~= was.push(("tags :"@, joined(texts(repo.tags@), " "@))));
    }
    if let Some(v) = repo.vcs {
        let ghost was = meta_texts(out@);
        let name = match v {
            VcsDefault::Auto => "Auto",
            VcsDefault::Git => "Git",
            VcsDefault::Jj => "Jj",
        };
        out.push(MetaLine { label: "vcs  :", value: name.to_owned() });
        assert(meta_texts(out@) =~= was.push(("vcs  :"@, vcs_name(v))));
    }
    if let Some(note) = &repo.note {
        let ghost was = meta_texts(out@);
        out.push(MetaLine { label: "note :", value: note.clone() });
        assert(meta_texts(out@) =~= was.push(("note :"@, note@)));
    }
    assert(meta_texts(out@) =~= lines_of(repo@, path@));
    out
}

/// What is said besides the rows.
#[derive(Debug)]
pub enum Footer {
    /// There is nothing on the shelf.
    EmptyShelf,
    /// No row matched; holds what is said then.
    NoMatch(String),
    /// Some rows matched, not all; holds what is said then.
    Partial(String),
    /// Every row matched.
    Nothing,
}

/// What is said besides the rows.
pub fn footer(matched: usize, total: usize) -> (r: Footer)
    ensures
        if total == 0 {
            r is EmptyShelf
        } else if matched == 0 {
            r matches Footer::NoMatch(t) && t@ == " matched the filters ("@ + decimal(total as nat)
                + " on the shelf total)"@
        } else if matched < total {
            r matches Footer::Partial(t) && t@ == decimal(matched as nat) + " of "@ + decimal(
                total as nat,
            ) + " repos matched"@
        } else {
            r is Nothing
        },
{
    if total == 0 {
        Footer::EmptyShelf
    } else if matched == 0 {
        Footer::NoMatch(
            " matched the filters (".to_owned().concat(decimal_of(total as u64).as_str()).concat(
                " on the shelf total)",
            ),
        )
    } else if matched < total {
        Footer::Partial(
            decimal_of(matched as u64).concat(" of ").concat(
                decimal_of(total as u64).as_str(),
            ).concat(" repos matched"),
        )
    } else {
        Footer::Nothing
    }
}

/// A row is to be listed: it carries every tag wanted and, where `AGENTS.md` is
/// asked for, that is there.
pub open spec fn has_what_is_wanted(
    rows: Seq<RepoView>,
    tags: Seq<Seq<char>>,
    has_agents: bool,
    agents: Seq<bool>,
    i: int,
) -> bool {
    &&& forall|t: Seq<char>| #[trigger] tags.contains(t) ==> rows[i].tags.contains(t)
    &&& has_agents ==> agents[i]
}

/// `out` is the rows at the positions `at`, which ascend and are all those of rows
/// with what is wanted.
pub open spec fn lists_at(
    rows: Seq<RepoView>,
    tags: Seq<Seq<char>>,
    has_agents: bool,
    agents: Seq<bool>,
    out: Seq<RepoView>,
    at: Seq<int>,
) -> bool {
    &&& at.len() == out.len()
    &&& forall|k: int|
        0 <= k < at.len() ==> 0 <= #[trigger] at[k] < rows.len() && out[k] == rows[at[k]]
            && has_what_is_wanted(rows, tags, has_agents, agents, at[k])
    &&& forall|j: int, k: int| 0 <= j < k < at.len() ==> #[trigger] at[j] < #[trigger] at[k]
    &&& forall|i: int|
        0 <= i < rows.len() && #[trigger] has_what_is_wanted(rows, tags, has_agents, agents, i)
            ==> at.contains(i)
}

/// This is one of the rows, and its `AGENTS.md` is there.
pub open spec fn has_agents_file(rows: Seq<RepoView>, agents: Seq<bool>, row: RepoView) -> bool {
    exists|i: int| 0 <= i < rows.len() && #[trigger] rows[i] == row && agents[i]
}

/// Every row that is listed carries every tag wanted, whether or not `AGENTS.md`
/// is asked for; where it is, the row's is there. Every row of which both hold is
/// listed, and the rows keep their order.
pub proof fn law_listed_rows(
    rows: Seq<RepoView>,
    tags: Seq<Seq<char>>,
    has_agents: bool,
    agents: Seq<bool>,
)
    ensures
        forall|k: int|
            0 <= k < listed_rows(rows, tags, has_agents, agents).len() ==> (
            #[trigger] listed_rows(rows, tags, has_agents, agents)[k]).has_all_tags(tags),
        has_agents ==> forall|k: int|
            0 <= k < listed_rows(rows, tags, has_agents, agents).len() ==> has_agents_file(
                rows,
                agents,
                #[trigger] listed_rows(rows, tags, has_agents, agents)[k],
            ),
        forall|i: int|
            0 <= i < rows.len() && (#[trigger] rows[i]).has_all_tags(tags) && (has_agents
                ==> agents[i]) ==> listed_rows(rows, tags, has_agents, agents).contains(rows[i]),
        exists|at: Seq<int>| #[trigger]
            lists_at(
                rows,
                tags,
                has_agents,
                agents,
                listed_rows(rows, tags, has_agents, agents),
                at,
            ),
{
    let out = listed_rows(rows, tags, has_agents, agents);
    let at = lemma_lists(rows, tags, has_agents, agents);
    assert(lists_at(rows, tags, has_agents, agents, out, at));
    assert forall|k: int| 0 <= k < out.len() implies (#[trigger] out[k]).has_all_tags(tags) && (
    has_agents ==> has_agents_file(rows, agents, out[k])) by {
        let i = at[k];
        assert(0 <= at[k] < rows.len());
        lemma_all_tags(rows[i], tags);
        assert(rows[i] == out[k]);
    }
    assert forall|i: int|
        0 <= i < rows.len() && (#[trigger] rows[i]).has_all_tags(tags) && (has_agents
            ==> agents[i]) implies out.contains(rows[i]) by {
        lemma_all_tags(rows[i], tags);
        assert(has_what_is_wanted(rows, tags, has_agents, agents, i));
        let k = choose|k: int| 0 <= k < at.len() && at[k] == i;
        assert(out[k] == rows[at[k]]);
    }
}

proof fn lemma_all_tags(row: RepoView, tags: Seq<Seq<char>>)
    ensures
        row.has_all_tags(tags) == (forall|t: Seq<char>| #[trigger]
            tags.contains(t) ==> row.tags.contains(t)),
{
    if row.has_all_tags(tags) {
        assert forall|t: Seq<char>| #[trigger] tags.contains(t) implies row.tags.contains(t) by {
            let i = choose|i: int| 0 <= i < tags.len() && tags[i] == t;
            assert(row.tags.contains(tags[i]));
        }
    }
    if forall|t: Seq<char>| #[trigger] tags.contains(t) ==> row.tags.contains(t) {
        assert forall|i: int| 0 <= i < tags.len() implies row.tags.contains(#[trigger] tags[i]) by {
            assert(tags.contains(tags[i]));
        }
    }
}

proof fn lemma_lists(
    rows: Seq<RepoView>,
    tags: Seq<Seq<char>>,
    has_agents: bool,
    agents: Seq<bool>,
) -> (at: Seq<int>)
    ensures
        lists_at(rows, tags, has_agents, agents, listed_rows(rows, tags, has_agents, agents), at),
    decreases rows.len(),
{
    let out = listed_rows(rows, tags, has_agents, agents);
    if rows.len() == 0 {
        Seq::empty()
    } else {
        let front = rows.drop_last();
        let was = lemma_lists(front, tags, has_agents, agents);
        let n = rows.len() - 1;
        lemma_all_tags(rows[n], tags);
        let at = if has_what_is_wanted(rows, tags, has_agents, agents, n) {
            was.push(n)
        } else {
            was
        };
        assert forall|k: int| 0 <= k < at.len() implies 0 <= #[trigger] at[k] < rows.len() && out[k]
            == rows[at[k]] && has_what_is_wanted(rows, tags, has_agents, agents, at[k]) by {
            if k < was.len() {
                assert(at[k] == was[k]);
                assert(front[was[k]] == rows[was[k]]);
                assert(has_what_is_wanted(front, tags, has_agents, agents, was[k]));
            }
        }
        assert forall|j: int, k: int| 0 <= j < k < at.len() implies #[trigger] at[j]
            < #[trigger] at[k] by {
            assert(at[j] == was[j]);
            if k < was.len() {
                assert(at[k] == was[k]);
            }
        }
        assert forall|i: int|
            0 <= i < rows.len() && #[trigger] has_what_is_wanted(
                rows,
                tags,
                has_agents,
                agents,
                i,
            ) implies at.contains(i) by {
            if i < n {
                assert(front[i] == rows[i]);
                assert(has_what_is_wanted(front, tags, has_agents, agents, i));
                let k = choose|k: int| 0 <= k < was.len() && was[k] == i;
                assert(at[k] == i);
            } else {
                assert(at[was.len() as int] == n);
            }
        }
        at
    }
}

/// Under a repository stands its path first; then its tags, with a space between each
/// two, where it has any; then its version control system and last its note, where they
/// are set; and nothing else.
pub proof fn law_lines_under_a_repository(repo: RepoView, path: Seq<char>, v: Seq<char>)
    ensures
        ({
            let lines = lines_of(repo, path);
            &&& lines[0] == ("path :"@, path)
            &&& lines.contains(("path :"@, v)) == (v == path)
            &&& lines.contains(("tags :"@, v)) == (repo.tags.len() > 0 && v == joined(
                repo.tags,
                " "@,
            ))
            &&& lines.contains(("vcs  :"@, v)) == (repo.vcs is Some && v == vcs_name(repo.vcs->0))
            &&& lines.contains(("note :"@, v)) == (repo.note == Some(v))
            &&& repo.tags.len() > 0 ==> lines[1].0 == "tags :"@
            &&& repo.note is Some ==> lines.last() == ("note :"@, repo.note->0)
            &&& lines.len() == 1 + (if repo.tags.len() > 0 {
                1int
            } else {
                0
            }) + (if repo.vcs is Some {
                1int
            } else {
                0
            }) + (if repo.note is Some {
                1int
            } else {
                0
            })
        }),
{
    reveal_strlit("path :");
    reveal_strlit("tags :");
    reveal_strlit("vcs  :");
    reveal_strlit("note :");
    let lines = lines_of(repo, path);
    assert("path :"@[0] == 'p' && "tags :"@[0] == 't' && "vcs  :"@[0] == 'v' && "note :"@[0]
        == 'n');
    let a: int = if repo.tags.len() > 0 {
        1
    } else {
        0
    };
    let b: int = if repo.vcs is Some {
        1
    } else {
        0
    };
    assert(lines[0] == ("path :"@, path));
    assert(a == 1 ==> lines[1] == ("tags :"@, joined(repo.tags, " "@)));
    assert(b == 1 ==> lines[1 + a] == ("vcs  :"@, vcs_name(repo.vcs->0)));
    assert(repo.note is Some ==> lines[1 + a + b] == ("note :"@, repo.note->0));
}

/// Each version control setting has a name of its own.
pub proof fn law_vcs_names_differ(a: VcsDefault, b: VcsDefault)
    ensures
        (vcs_name(a) == vcs_name(b)) == (a == b),
        vcs_name(VcsDefault::Auto) == seq!['A', 'u', 't', 'o'],
        vcs_name(VcsDefault::Git) == seq!['G', 'i', 't'],
        vcs_name(VcsDefault::Jj) == seq!['J', 'j'],
{
    reveal_strlit("Auto");
    reveal_strlit("Git");
    reveal_strlit("Jj");
    assert("Auto"@[0] == 'A' && "Git"@[0] == 'G' && "Jj"@[0] == 'J');
    assert("Auto"@ =~= seq!['A', 'u', 't', 'o']);
    assert("Git"@ =~= seq!['G', 'i', 't']);
    assert("Jj"@ =~= seq!['J', 'j']);
}

} // verus!
