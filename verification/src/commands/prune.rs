//! `shoka prune`: rows whose checkout is gone are dropped.
use vstd::prelude::*;
use vstd::string::*;

use crate::cli::PruneArgs;
use crate::commands::exec::{fails_first_at, path_fails};
use crate::commands::rm::RepoId;
use crate::config::{ConfigError, ResolvedConfig};
use crate::seqs::{
    lemma_first_index, lemma_is_first_index, lemma_picks_nothing, lemma_picks_step, picks,
};
use crate::state::{RepoView, RowKey, Shelf, ShelfView, law_remove_keeps_other_rows};
use crate::text::{decimal, decimal_of, has, lemma_told_in_order, opt_as_str};

verus! {

/// A row, and where its checkout should be.
#[derive(Debug)]
pub struct Stale {
    pub id: RepoId,
    pub slug: String,
    pub path: String,
}

impl Stale {
    /// The row with this contents, at a place where it may live.
    pub open spec fn stands_for(self, config: ResolvedConfig, row: RepoView) -> bool {
        &&& self.id.key() == row.key()
        &&& self.slug@ == row.slug()
        &&& config.may_live_at(row, self.path@)
    }
}

/// Why a prune stopped.
#[derive(Debug)]
pub enum PruneError {
    /// A row's path does not render.
    Path { slug: String, error: ConfigError },
    /// None of the rows was on the shelf any more.
    NothingRemoved,
}

impl PruneError {
    /// The text of the message.
    pub open spec fn text(self) -> Seq<char> {
        match self {
            PruneError::Path { slug, error } => "resolving clone path for "@ + slug@ + ": "@
                + error.text(),
            PruneError::NothingRemoved =>
                "internal: candidates list and shelf disagreed; no entries removed"@,
        }
    }

    /// The message shown to the user.
    pub fn message(&self) -> (r: String)
        ensures
            r@ == self.text(),
    {
        match self {
            PruneError::Path { slug, error } => "resolving clone path for ".to_owned().concat(
                slug.as_str(),
            ).concat(": ").concat(error.message().as_str()),
            PruneError::NothingRemoved => "internal: candidates list and shelf disagreed; no entries removed".to_owned(),
        }
    }
}

/// Every row of the shelf, in order, with where its checkout should be; or the
/// first path that does not render.
pub fn expected_checkouts(shelf: &Shelf, resolved: &ResolvedConfig) -> (r: Result<
    Vec<Stale>,
    PruneError,
>)
    ensures
        match r {
            Ok(v) => v@.len() == shelf@.rows.len() && forall|i: int|
                0 <= i < v@.len() ==> (#[trigger] v@[i]).stands_for(*resolved, shelf@.rows[i]),
            Err(e) => e matches PruneError::Path { slug, error } && path_fails(
                *resolved,
                shelf@.rows,
                slug@,
                error,
            ),
        },
{
    let mut out: Vec<Stale> = Vec::new();
    let mut i: usize = 0;
    while i < shelf.repos.len()
        invariant
            i <= shelf.repos@.len(),
            out@.len() == i,
            forall|j: int|
                0 <= j < i ==> (#[trigger] out@[j]).stands_for(*resolved, shelf@.rows[j]),
        decreases shelf.repos@.len() - i,
    {
        let repo = &shelf.repos[i];
        assert(shelf@.rows[i as int] == repo@);
        match resolved.clone_path_for(repo) {
            Ok(path) => {
                out.push(Stale { id: RepoId::of(repo), slug: repo.slug(), path });
            },
            Err(error) => {
                proof {
                    let rows = shelf@.rows;
                    assert forall|j: int| 0 <= j < i implies resolved.may_render(
                        #[trigger] rows[j],
                    ) by {
                        assert(out@[j].stands_for(*resolved, rows[j]));
                    }
                    assert(fails_first_at(*resolved, rows, repo@.slug(), error, i as int));
                }
                return Err(PruneError::Path { slug: repo.slug(), error });
            },
        }
        i = i + 1;
    }
    Ok(out)
}

/// Those of the rows whose checkout is not there, in order.
pub open spec fn missing<T>(all: Seq<T>, is_dir: Seq<bool>) -> Seq<T>
    decreases all.len(),
{
    if all.len() == 0 {
        Seq::empty()
    } else {
        let front = missing(all.drop_last(), is_dir);
        if is_dir[all.len() - 1] {
            front
        } else {
            front.push(all.last())
        }
    }
}

/// Those of the rows whose checkout is not there, in order.
pub fn find_stale(all: Vec<Stale>, is_dir: &[bool]) -> (r: Vec<Stale>)
    requires
        is_dir@.len() == all@.len(),
    ensures
        r@ == missing(all@, is_dir@),
{
    let ghost rows = all@;
    let mut out: Vec<Stale> = Vec::new();
    let mut i: usize = 0;
    assert(rows.take(0) =~= Seq::<Stale>::empty());
    for one in it: all
        invariant
            it.seq() == rows,
            rows.len() == is_dir@.len(),
            i == it.index(),
            i <= is_dir@.len(),
            out@ == missing(rows.take(i as int), is_dir@),
    {
        assert(rows.take(i + 1).drop_last() =~= rows.take(i as int));
        assert(rows.take(i + 1).last() == one);
        if !is_dir[i] {
            out.push(one);
        }
        let next: usize = if i < is_dir.len() {
            i + 1
        } else {
            i
        };
        i = next;
    }
    assert(rows.take(rows.len() as int) =~= rows);
    out
}

/// What to do next about a prune.
#[derive(Debug, Clone, Copy, PartialEq, Eq, Structural)]
pub enum PruneStep {
    /// Say that there is nothing to do, and stop.
    Nothing,
    /// Say what would be dropped, and stop.
    DryRun,
    /// Ask, with no as the default.
    Confirm,
    /// Leave everything as it is.
    Abort,
    /// Drop the rows.
    Remove,
}

/// What to do next, given what the user said as far as it is known.
pub open spec fn next_step(
    candidates: nat,
    dry_run: bool,
    yes: bool,
    confirmed: Option<bool>,
) -> PruneStep {
    if candidates == 0 {
        PruneStep::Nothing
    } else if dry_run {
        PruneStep::DryRun
    } else if yes || confirmed == Some(true) {
        PruneStep::Remove
    } else if confirmed is None {
        PruneStep::Confirm
    } else {
        PruneStep::Abort
    }
}

/// What to do next about a prune.
pub fn run(args: &PruneArgs, candidates: usize, confirmed: Option<bool>) -> (r: PruneStep)
    ensures
        r == next_step(candidates as nat, args.dry_run, args.yes, confirmed),
{
    if candidates == 0 {
        return PruneStep::Nothing;
    }
    if args.dry_run {
        return PruneStep::DryRun;
    }
    if args.yes {
        return PruneStep::Remove;
    }
    match confirmed {
        None => PruneStep::Confirm,
        Some(true) => PruneStep::Remove,
        Some(false) => PruneStep::Abort,
    }
}

/// `entry` or `entries`, from its last letters on.
pub open spec fn entries(n: nat) -> Seq<char> {
    if n == 1 {
        "y"@
    } else {
        "ies"@
    }
}

fn entries_text(n: usize) -> (r: &'static str)
    ensures
        r@ == entries(n as nat),
{
    if n == 1 {
        "y"
    } else {
        "ies"
    }
}

/// The question that a prune is confirmed by.
pub fn question(candidates: usize) -> (r: String)
    ensures
        r@ == "Remove "@ + decimal(candidates as nat) + " stale entr"@ + entries(candidates as nat)
            + " from the shelf?"@,
{
    "Remove ".to_owned().concat(decimal_of(candidates as u64).as_str()).concat(
        " stale entr",
    ).concat(entries_text(candidates)).concat(" from the shelf?")
}

/// What is said of how many checkouts are gone.
pub fn headline(candidates: usize, total: usize) -> (r: String)
    ensures
        r@ == decimal(candidates as nat) + " of "@ + decimal(total as nat)
            + " repo(s) have missing clone paths"@,
{
    decimal_of(candidates as u64).concat(" of ").concat(decimal_of(total as u64).as_str()).concat(
        " repo(s) have missing clone paths",
    )
}

/// What is said once rows were dropped.
pub fn removed_text(removed: usize, on_shelf: usize) -> (r: String)
    ensures
        r@ == "removed "@ + decimal(removed as nat) + " stale entr"@ + entries(removed as nat)
            + " ("@ + decimal(on_shelf as nat) + " on shelf now)"@,
{
    "removed ".to_owned().concat(decimal_of(removed as u64).as_str()).concat(
        " stale entr",
    ).concat(entries_text(removed)).concat(" (").concat(
        decimal_of(on_shelf as u64).as_str(),
    ).concat(" on shelf now)")
}

/// The shelf without the rows of these identities, the first ones first, and
/// how many of them were on it.
pub open spec fn pruned(shelf: ShelfView, stale: Seq<Stale>) -> (ShelfView, nat)
    decreases stale.len(),
{
    if stale.len() == 0 {
        (shelf, 0)
    } else {
        let (front, n) = pruned(shelf, stale.drop_last());
        let i = front.row_index(stale.last().id.key());
        if i < front.rows.len() {
            (front.without(i), n + 1)
        } else {
            (front, n)
        }
    }
}

/// Drops the rows of these identities. That none of them was on the shelf is an
/// error.
pub fn remove_stale(shelf: &mut Shelf, stale: &[Stale]) -> (r: Result<usize, PruneError>)
    ensures
        ({
            let (next, n) = pruned(old(shelf)@, stale@);
            &&& final(shelf)@ == next
            &&& if n == 0 {
                r matches Err(PruneError::NothingRemoved)
            } else {
                r matches Ok(k) && k == n
            }
        }),
{
    let mut removed: usize = 0;
    let mut i: usize = 0;
    assert(stale@.take(0) =~= Seq::<Stale>::empty());
    while i < stale.len()
        invariant
            i <= stale@.len(),
            removed <= i,
            pruned(old(shelf)@, stale@.take(i as int)) == (shelf@, removed as nat),
        decreases stale@.len() - i,
    {
        assert(stale@.take(i + 1).drop_last() =~= stale@.take(i as int));
        assert(stale@.take(i + 1).last() == stale@[i as int]);
        let id = &stale[i].id;
        proof {
            lemma_first_index(shelf@.rows, |r: RepoView| r.key() == id.key());
        }
        let gone = shelf.remove_by_path(
            id.host.as_str(),
            id.owner.as_str(),
            id.name.as_str(),
            opt_as_str(&id.path),
        );
        if gone.is_some() {
            removed = removed + 1;
        }
        i = i + 1;
    }
    assert(stale@.take(i as int) =~= stale@);
    if removed == 0 {
        Err(PruneError::NothingRemoved)
    } else {
        Ok(removed)
    }
}

/// Nothing is dropped in a dry run, nor before it has been said on the command
/// line or by the user that it shall be.
pub proof fn law_prune_is_asked_for(
    candidates: nat,
    dry_run: bool,
    yes: bool,
    confirmed: Option<bool>,
)
    requires
        next_step(candidates, dry_run, yes, confirmed) == PruneStep::Remove,
    ensures
        !dry_run,
        candidates > 0,
        yes || confirmed == Some(true),
{
}

/// Those of the rows whose checkout is there, in order.
pub open spec fn present<T>(all: Seq<T>, is_dir: Seq<bool>) -> Seq<T>
    decreases all.len(),
{
    if all.len() == 0 {
        Seq::empty()
    } else {
        let front = present(all.drop_last(), is_dir);
        if is_dir[all.len() - 1] {
            front.push(all.last())
        } else {
            front
        }
    }
}

/// Every row that is there is one of the rows.
proof fn lemma_present_rows<T>(all: Seq<T>, is_dir: Seq<bool>)
    ensures
        forall|i: int|
            0 <= i < present(all, is_dir).len() ==> all.contains(#[trigger] present(all, is_dir)[i]),
    decreases all.len(),
{
    if all.len() > 0 {
        let front = all.drop_last();
        lemma_present_rows(front, is_dir);
        let rows = present(all, is_dir);
        assert forall|i: int| 0 <= i < rows.len() implies all.contains(#[trigger] rows[i]) by {
            if i < present(front, is_dir).len() {
                assert(rows[i] == present(front, is_dir)[i]);
                let j = choose|j: int| 0 <= j < front.len() && front[j] == rows[i];
                assert(all[j] == rows[i]);
            } else {
                assert(all[all.len() - 1] == rows[i]);
            }
        }
    }
}

/// A prune, as far as the first `k` rows are concerned.
proof fn lemma_pruned_so_far(shelf: ShelfView, all: Seq<Stale>, is_dir: Seq<bool>, k: int)
    requires
        shelf.distinct(),
        all.len() == shelf.rows.len() == is_dir.len(),
        forall|i: int| 0 <= i < all.len() ==> (#[trigger] all[i]).id.key() == shelf.rows[i].key(),
        0 <= k <= all.len(),
    ensures
        ({
            let (next, n) = pruned(shelf, missing(all.take(k), is_dir));
            &&& next.version == shelf.version
            &&& next.rows == present(shelf.rows.take(k), is_dir) + shelf.rows.skip(k)
            &&& n == missing(all.take(k), is_dir).len()
        }),
    decreases k,
{
    let rows = shelf.rows;
    if k == 0 {
        assert(present(rows.take(0), is_dir) + rows.skip(0) =~= rows);
    } else {
        lemma_pruned_so_far(shelf, all, is_dir, k - 1);
        assert(all.take(k).drop_last() =~= all.take(k - 1));
        assert(rows.take(k).drop_last() =~= rows.take(k - 1));
        let before = missing(all.take(k - 1), is_dir);
        let kept = present(rows.take(k - 1), is_dir);
        let (mid, _) = pruned(shelf, before);
        if is_dir[k - 1] {
            assert(kept + rows.skip(k - 1) =~= kept.push(rows[k - 1]) + rows.skip(k));
        } else {
            let stale = before.push(all[k - 1]);
            assert(missing(all.take(k), is_dir) == stale);
            assert(stale.drop_last() =~= before);
            let key = all[k - 1].id.key();
            let p = |r: RepoView| r.key() == key;
            let at = kept.len() as int;
            let seen = rows.take(k - 1);
            lemma_present_rows(seen, is_dir);
            assert forall|j: int| 0 <= j < at implies !p(#[trigger] mid.rows[j]) by {
                assert(mid.rows[j] == kept[j]);
                let i = choose|i: int| 0 <= i < seen.len() && seen[i] == kept[j];
                assert(rows[i].key() != rows[k - 1].key());
            }
            assert(mid.rows[at] == rows[k - 1]);
            lemma_is_first_index(mid.rows, p, at);
            assert(mid.rows.remove(at) =~= kept + rows.skip(k));
        }
    }
}

/// A prune of a shelf without duplicates drops the rows whose checkout is gone
/// and no others: what is left are the rows whose checkout is there, in their
/// order, and as many rows went as were missing.
pub proof fn law_prune_drops_exactly_the_missing(
    shelf: ShelfView,
    config: ResolvedConfig,
    all: Seq<Stale>,
    is_dir: Seq<bool>,
)
    requires
        shelf.distinct(),
        all.len() == shelf.rows.len() == is_dir.len(),
        forall|i: int|
            0 <= i < all.len() ==> (#[trigger] all[i]).stands_for(config, shelf.rows[i]),
    ensures
        ({
            let (next, n) = pruned(shelf, missing(all, is_dir));
            &&& next.version == shelf.version
            &&& next.rows == present(shelf.rows, is_dir)
            &&& n == missing(all, is_dir).len()
        }),
{
    let n = all.len() as int;
    lemma_pruned_so_far(shelf, all, is_dir, n);
    assert(all.take(n) =~= all);
    assert(shelf.rows.take(n) =~= shelf.rows);
    assert(present(shelf.rows, is_dir) + shelf.rows.skip(n) =~= present(shelf.rows, is_dir));
}

/// A prune keeps every row whose identity is not among those to be dropped,
/// other checkouts of the same remote among them.
pub proof fn law_prune_keeps_other_rows(shelf: ShelfView, stale: Seq<Stale>, key: RowKey)
    requires
        forall|i: int| 0 <= i < stale.len() ==> (#[trigger] stale[i]).id.key() != key,
    ensures
        ({
            let next = pruned(shelf, stale).0;
            next.at(next.row_index(key)) == shelf.at(shelf.row_index(key))
        }),
    decreases stale.len(),
{
    if stale.len() > 0 {
        let front = stale.drop_last();
        assert forall|i: int| 0 <= i < front.len() implies (#[trigger] front[i]).id.key()
            != key by {
            assert(front[i] == stale[i]);
        }
        law_prune_keeps_other_rows(shelf, front, key);
        let (mid, _) = pruned(shelf, front);
        law_remove_keeps_other_rows(mid, stale.last().id.key(), key);
    }
}

/// What is missing is what stands where no checkout is, and what is there is what
/// stands where one is: in order, all of it and nothing else.
pub proof fn law_missing_and_present<T>(all: Seq<T>, is_dir: Seq<bool>)
    ensures
        picks(all, is_dir, false, missing(all, is_dir)),
        picks(all, is_dir, true, present(all, is_dir)),
        missing(all, is_dir).len() + present(all, is_dir).len() == all.len(),
    decreases all.len(),
{
    if all.len() > 0 {
        law_missing_and_present(all.drop_last(), is_dir);
        lemma_picks_step(all, is_dir, false, missing(all.drop_last(), is_dir));
        lemma_picks_step(all, is_dir, true, present(all.drop_last(), is_dir));
    } else {
        assert(all =~= Seq::empty());
        lemma_picks_nothing::<T>(is_dir, false);
        lemma_picks_nothing::<T>(is_dir, true);
    }
}

/// With something to drop and no dry run, rows are dropped as soon as that is
/// confirmed, on the command line or by the user; the user is asked where neither
/// has happened, and a refusal leaves everything as it is. A dry run, and one with
/// nothing to drop, never asks.
pub proof fn law_steps_of_a_prune(
    candidates: nat,
    dry_run: bool,
    yes: bool,
    confirmed: Option<bool>,
)
    ensures
        ({
            let step = next_step(candidates, dry_run, yes, confirmed);
            let goes_on = candidates > 0 && !dry_run;
            &&& (step == PruneStep::Nothing) == (candidates == 0)
            &&& (step == PruneStep::DryRun) == (candidates > 0 && dry_run)
            &&& (step == PruneStep::Remove) == (goes_on && (yes || confirmed == Some(true)))
            &&& (step == PruneStep::Confirm) == (goes_on && !yes && confirmed is None)
            &&& (step == PruneStep::Abort) == (goes_on && !yes && confirmed == Some(false))
        }),
{
    if let Some(c) = confirmed {
        assert(c == true || c == false);
    }
}

/// Exactly one is an entry, any other number are entries.
pub proof fn law_number_of_entries(n: nat)
    ensures
        entries(n) == (if n == 1 {
            seq!['y']
        } else {
            seq!['i', 'e', 's']
        }),
{
    reveal_strlit("y");
    reveal_strlit("ies");
    assert("y"@ =~= seq!['y']);
    assert("ies"@ =~= seq!['i', 'e', 's']);
}

/// What is said of a path that does not render names the row and the reason.
pub proof fn law_message_of_a_prune(e: PruneError)
    ensures
        e matches PruneError::Path { slug, error } ==> has(e.text(), slug@ + ": "@ + error.text()),
{
    match e {
        PruneError::Path { slug, error } => {
            let head = "resolving clone path for "@;
            lemma_told_in_order(head, slug@, ": "@, error.text());
        },
        _ => {},
    }
}

} // verus!
