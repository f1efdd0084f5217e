//! The dashboard's state, and what the keys do to it.
use vstd::prelude::*;
use vstd::string::*;

use crate::actions::{ActionKind, ActionOutcome, ActionOutcomeView};
use crate::commands::clone::{is_own, owner_in};
use crate::commands::tui::picker::{Picker, PickerView};
use crate::commands::tui::rank::{
    in_order, key_scores, law_everything_without_a_query, law_ranking, new_matcher, ranking, score,
    score_of, Ranked,
};
use crate::commands::tui::rows::{DashRow, DashRowView};
use crate::seqs::{opt_view, views};
use crate::text::{opt_text, texts};

verus! {

/// What the keys are read as.
#[derive(Debug, Clone, Copy, PartialEq, Eq, Structural)]
pub enum Mode {
    /// Keys move and act.
    Normal,
    /// Keys edit the filter.
    Filter,
}

/// The result of a fetch or a push, shown until the next key.
#[derive(Debug)]
pub struct ActionPopup {
    pub kind: ActionKind,
    pub repo_label: String,
    /// `None` where the action did not run.
    pub outcome: Option<ActionOutcome>,
    /// Why it did not run; empty where it did.
    pub error: String,
}

/// The contents of an [`ActionPopup`].
#[verifier::ext_equal]
pub struct ActionPopupView {
    pub kind: ActionKind,
    pub repo_label: Seq<char>,
    pub outcome: Option<ActionOutcomeView>,
    pub error: Seq<char>,
}

impl View for ActionPopup {
    type V = ActionPopupView;

    open spec fn view(&self) -> ActionPopupView {
        ActionPopupView {
            kind: self.kind,
            repo_label: self.repo_label@,
            outcome: opt_view(self.outcome),
            error: self.error@,
        }
    }
}

/// The dashboard.
pub struct App {
    pub rows: Vec<DashRow>,
    /// The owners that the user counts as their own.
    pub own_owners: Vec<String>,
    /// Only rows of those owners are shown.
    pub mine_only: bool,
    pub filter: String,
    /// The positions of the rows shown, the best match first.
    pub matches: Vec<usize>,
    /// The position in `matches` of the row that is marked.
    pub cursor: usize,
    pub mode: Mode,
    /// The help is shown.
    pub show_help: bool,
    pub picker: Option<Picker>,
    pub action_popup: Option<ActionPopup>,
    /// A note on what the last key did.
    pub status_message: Option<String>,
    pub matcher: nucleo::Matcher,
}

/// The contents of an [`App`].
#[verifier::ext_equal]
pub struct AppView {
    pub rows: Seq<DashRowView>,
    pub own_owners: Seq<Seq<char>>,
    pub mine_only: bool,
    pub filter: Seq<char>,
    pub matches: Seq<usize>,
    pub cursor: usize,
    pub mode: Mode,
    pub show_help: bool,
    pub picker: Option<PickerView>,
    pub action_popup: Option<ActionPopupView>,
    pub status_message: Option<Seq<char>>,
}

impl View for App {
    type V = AppView;

    open spec fn view(&self) -> AppView {
        AppView {
            rows: views(self.rows@),
            own_owners: texts(self.own_owners@),
            mine_only: self.mine_only,
            filter: self.filter@,
            matches: self.matches@,
            cursor: self.cursor,
            mode: self.mode,
            show_help: self.show_help,
            picker: opt_view(self.picker),
            action_popup: opt_view(self.action_popup),
            status_message: opt_text(self.status_message),
        }
    }
}

impl AppView {
    /// Whether a row is one of the user's own. Without owners every row is.
    pub open spec fn mine(self, row: DashRowView) -> bool {
        self.own_owners.len() == 0 || is_own(self.own_owners, row.owner)
    }

    /// Whether a row may be shown: any may, unless only the user's own are wanted.
    pub open spec fn in_scope(self, row: DashRowView) -> bool {
        !self.mine_only || self.mine(row)
    }

    /// The score of each row: none where the row is out of scope or does not
    /// match the filter.
    pub open spec fn scores(self) -> Seq<Option<u32>> {
        Seq::new(
            self.rows.len(),
            |i: int|
                if self.in_scope(self.rows[i]) {
                    score_of(self.filter, self.rows[i].search_key)
                } else {
                    None
                },
        )
    }

    /// The dashboard with the rows ranked anew, the best one marked.
    pub open spec fn refiltered(self) -> AppView {
        AppView { matches: ranking(self.scores()), cursor: 0, ..self }
    }

    /// What is shown is the ranking of the rows, and the marked row is one of
    /// those shown.
    pub open spec fn wf(self) -> bool {
        &&& self.rows.len() <= usize::MAX
        &&& self.matches == ranking(self.scores())
        &&& self.cursor < self.matches.len() || (self.cursor == 0 && self.matches.len() == 0)
        &&& self.picker matches Some(p) ==> p.state.wf()
    }

    /// The position of the marked row.
    pub open spec fn marked(self) -> Option<usize> {
        if self.cursor < self.matches.len() {
            Some(self.matches[self.cursor as int])
        } else {
            None
        }
    }

    /// The marked row.
    pub open spec fn marked_row(self) -> Option<DashRowView> {
        match self.marked() {
            Some(i) => Some(self.rows[i as int]),
            None => None,
        }
    }

    /// The dashboard with the next row marked, where there is one.
    pub open spec fn down(self) -> AppView {
        AppView {
            cursor: if self.matches.len() == 0 {
                self.cursor
            } else if self.cursor + 1 < self.matches.len() {
                (self.cursor + 1) as usize
            } else {
                (self.matches.len() - 1) as usize
            },
            ..self
        }
    }

    /// The dashboard with the row before marked, where there is one.
    pub open spec fn up(self) -> AppView {
        AppView {
            cursor: if self.cursor > 0 {
                (self.cursor - 1) as usize
            } else {
                0
            },
            ..self
        }
    }

    /// The dashboard with a note on what the last key did.
    pub open spec fn noting(self, message: Seq<char>) -> AppView {
        AppView { status_message: Some(message), ..self }
    }

    /// The dashboard with the scope flipped, where there is anything to scope to.
    pub open spec fn toggled(self) -> AppView {
        if self.own_owners.len() == 0 {
            self.noting("no `[ui].own_owners` configured — nothing to scope to"@)
        } else {
            let flipped = AppView { mine_only: !self.mine_only, ..self }.refiltered();
            flipped.noting(
                if flipped.mine_only {
                    "scope: mine"@
                } else {
                    "scope: all"@
                },
            )
        }
    }

    /// The dashboard with another filter.
    pub open spec fn filtered_by(self, filter: Seq<char>) -> AppView {
        AppView { filter, ..self }.refiltered()
    }

    /// The dashboard with a picker over it.
    pub open spec fn picking(self, picker: PickerView) -> AppView {
        AppView { picker: Some(picker), ..self }
    }
}

/// A dashboard's rows, in scope, without a filter and with nothing over them.
pub open spec fn fresh(rows: Seq<DashRowView>, own_owners: Seq<Seq<char>>) -> AppView {
    AppView {
        rows,
        own_owners,
        mine_only: own_owners.len() > 0,
        filter: Seq::empty(),
        matches: Seq::empty(),
        cursor: 0,
        mode: Mode::Normal,
        show_help: false,
        picker: None,
        action_popup: None,
        status_message: None,
    }.refiltered()
}

impl App {
    /// The dashboard of some rows. Where owners are configured it starts with
    /// their rows only.
    pub fn new(rows: Vec<DashRow>, own_owners: Vec<String>) -> (r: Self)
        ensures
            r@ == fresh(views(rows@), texts(own_owners@)),
            r@.wf(),
    {
        let mine_only = own_owners.len() > 0;
        let mut app = App {
            rows,
            own_owners,
            mine_only,
            filter: String::new(),
            matches: Vec::new(),
            cursor: 0,
            mode: Mode::Normal,
            show_help: false,
            picker: None,
            action_popup: None,
            status_message: None,
            matcher: new_matcher(),
        };
        app.refilter();
        app
    }

    /// Whether a row is one of the user's own.
    pub fn is_mine(&self, row: &DashRow) -> (r: bool)
        ensures
            r == self@.mine(row@),
    {
        self.own_owners.len() == 0 || owner_in(&self.own_owners, row.owner.as_str())
    }

    /// Ranks the rows in scope by the filter, and marks the best one. Without a
    /// filter they stand in shelf order.
    pub fn refilter(&mut self)
        ensures
            final(self)@ == old(self)@.refiltered(),
            (old(self)@.picker matches Some(p) ==> p.state.wf()) ==> final(self)@.wf(),
    {
        let mut ranked = Ranked::new();
        let ghost scores: Seq<Option<u32>> = Seq::empty();
        let ghost before = self@;
        let ghost all = before.scores();
        let mut i: usize = 0;
        while i < self.rows.len()
            invariant
                i <= self.rows@.len(),
                self@ == before,
                all == before.scores(),
                scores == all.take(i as int),
                ranked.ranks_all(scores),
            decreases self.rows@.len() - i,
        {
            let in_scope = !self.mine_only || self.is_mine(&self.rows[i]);
            assert(before.rows[i as int] == self.rows@[i as int]@);
            let s = if in_scope {
                score(self.filter.as_str(), self.rows[i].search_key.as_str(), &mut self.matcher)
            } else {
                None
            };
            ranked.add(Ghost(scores), i, s);
            proof {
                assert(all[i as int] == s);
                scores = scores.push(s);
                assert(scores =~= all.take(i + 1));
            }
            i = i + 1;
        }
        assert(all.take(i as int) =~= all);
        self.matches = ranked.order;
        self.cursor = 0;
        assert(self@.scores() =~= all);
    }

    /// Flips between the user's own rows and all of them. Without owners there
    /// is nothing to flip, which is noted.
    pub fn toggle_mine_only(&mut self)
        ensures
            final(self)@ == old(self)@.toggled(),
            old(self)@.wf() ==> final(self)@.wf(),
    {
        if self.own_owners.len() == 0 {
            self.note("no `[ui].own_owners` configured — nothing to scope to".to_owned());
            return;
        }
        self.mine_only = !self.mine_only;
        self.refilter();
        if self.mine_only {
            self.note("scope: mine".to_owned());
        } else {
            self.note("scope: all".to_owned());
        }
    }

    /// Notes what the last key did.
    pub(crate) fn note(&mut self, message: String)
        ensures
            final(self)@ == old(self)@.noting(message@),
            old(self)@.wf() ==> final(self)@.wf(),
    {
        self.status_message = Some(message);
        assert(self@.scores() =~= old(self)@.scores());
    }

    /// Marks the next row.
    pub fn move_down(&mut self)
        ensures
            final(self)@ == old(self)@.down(),
            old(self)@.wf() ==> final(self)@.wf(),
    {
        let shown: usize = self.matches.len();
        if shown > 0 {
            self.cursor = if self.cursor < shown - 1 {
                self.cursor + 1
            } else {
                shown - 1
            };
        }
        assert(self@.scores() =~= old(self)@.scores());
    }

    /// Marks the row before.
    pub fn move_up(&mut self)
        ensures
            final(self)@ == old(self)@.up(),
            old(self)@.wf() ==> final(self)@.wf(),
    {
        if self.cursor > 0 {
            self.cursor = self.cursor - 1;
        }
        assert(self@.scores() =~= old(self)@.scores());
    }

    /// The position of the marked row in `rows`, if there is one.
    pub fn selected_row(&self) -> (r: Option<usize>)
        ensures
            r == self@.marked(),
            self@.wf() ==> (r matches Some(i) ==> i < self@.rows.len()),
    {
        proof {
            if self@.wf() {
                law_ranking(self@.scores());
            }
        }
        if self.cursor < self.matches.len() {
            Some(self.matches[self.cursor])
        } else {
            None
        }
    }

    /// The line of the table that is marked, if there is one.
    pub fn table_selection(&self) -> (r: Option<usize>)
        ensures
            r == (if self@.matches.len() == 0 {
                None
            } else {
                Some(self@.cursor)
            }),
    {
        if self.matches.len() == 0 {
            None
        } else {
            Some(self.cursor)
        }
    }
}

/// A row is shown exactly when the filter matches it and, where only the user's own
/// are wanted and owners are configured, its owner is one of these in whatever case.
/// Of two rows shown the one with the higher score is in front, and of equal ones the
/// one that is in front on the shelf.
pub proof fn law_rows_that_are_shown(app: AppView)
    requires
        app.wf(),
    ensures
        forall|i: int|
            0 <= i < app.rows.len() ==> app.matches.contains(i as usize) == ((!app.mine_only
                || app.own_owners.len() == 0 || is_own(app.own_owners, app.rows[i].owner))
                && score_of(app.filter, (#[trigger] app.rows[i]).search_key) is Some),
        forall|k: int| 0 <= k < app.matches.len() ==> #[trigger] app.matches[k] < app.rows.len(),
        forall|a: int, b: int|
            #![trigger app.matches[a], app.matches[b]]
            0 <= a < b < app.matches.len() ==> {
                let x = score_of(app.filter, app.rows[app.matches[a] as int].search_key)->0;
                let y = score_of(app.filter, app.rows[app.matches[b] as int].search_key)->0;
                x > y || (x == y && app.matches[a] < app.matches[b])
            },
{
    let scores = app.scores();
    law_ranking(scores);
    let order = app.matches;
    assert forall|i: int| 0 <= i < app.rows.len() implies order.contains(i as usize) == ((
    !app.mine_only || app.own_owners.len() == 0 || is_own(app.own_owners, app.rows[i].owner))
        && score_of(app.filter, (#[trigger] app.rows[i]).search_key) is Some) by {
        assert(scores[i] is Some == ((!app.mine_only || app.own_owners.len() == 0 || is_own(
            app.own_owners,
            app.rows[i].owner,
        )) && score_of(app.filter, app.rows[i].search_key) is Some));
        if order.contains(i as usize) {
            let k = choose|k: int| 0 <= k < order.len() && order[k] == i as usize;
            assert(order[k] < scores.len());
        }
    }
    assert forall|a: int, b: int|
        #![trigger app.matches[a], app.matches[b]]
        0 <= a < b < app.matches.len() implies {
        let x = score_of(app.filter, app.rows[app.matches[a] as int].search_key)->0;
        let y = score_of(app.filter, app.rows[app.matches[b] as int].search_key)->0;
        x > y || (x == y && app.matches[a] < app.matches[b])
    } by {
        let i = order[a] as int;
        let j = order[b] as int;
        assert(scores[i] == score_of(app.filter, app.rows[i].search_key));
        assert(scores[j] == score_of(app.filter, app.rows[j].search_key));
    }
}

/// Without a filter, and with every row in scope, all rows are shown in shelf order.
pub proof fn law_everything_is_shown(app: AppView)
    requires
        app.wf(),
        app.filter.len() == 0,
        !app.mine_only,
    ensures
        app.matches == in_order(app.rows.len()),
{
    let keys = Seq::new(app.rows.len(), |i: int| app.rows[i].search_key);
    assert(app.filter =~= Seq::empty());
    assert(app.scores() =~= key_scores(Seq::empty(), keys));
    law_everything_without_a_query(keys);
}

/// The mark moves down and up by one row, and stays at either end. Nothing else
/// changes, and a step up undoes one down.
pub proof fn law_moving(app: AppView)
    requires
        app.wf(),
    ensures
        ({
            let n = app.matches.len();
            &&& app.cursor + 1 < n ==> app.down().cursor == app.cursor + 1 && app.down().up() == app
            &&& app.cursor + 1 >= n ==> app.down() == app
            &&& app.cursor > 0 ==> app.up().cursor == app.cursor - 1 && app.up().down() == app
            &&& app.cursor == 0 ==> app.up() == app
            &&& app.down().matches == app.matches && app.up().matches == app.matches
        }),
{
    law_ranking(app.scores());
}

/// What is marked is one of the rows shown, and there is one unless none is shown.
pub proof fn law_marked_row(app: AppView)
    requires
        app.wf(),
    ensures
        app.marked() is Some == (app.matches.len() > 0),
        app.marked_row() is Some == (app.matches.len() > 0),
        app.marked() is Some ==> app.matches[app.cursor as int] == app.marked()->0
            && app.marked_row()->0 == app.rows[app.marked()->0 as int],
{
}

/// Flipping the scope keeps the rows, the owners and the filter, and flipping it
/// twice shows what was shown before. Without owners it only leaves a note.
pub proof fn law_flipping_the_scope(app: AppView)
    requires
        app.wf(),
    ensures
        app.own_owners.len() == 0 ==> app.toggled() == (AppView {
            status_message: app.toggled().status_message,
            ..app
        }),
        app.own_owners.len() > 0 ==> {
            let once = app.toggled();
            &&& once.mine_only == !app.mine_only
            &&& once.rows == app.rows && once.own_owners == app.own_owners && once.filter
                == app.filter
            &&& once.cursor == 0
            &&& once.toggled().matches == app.matches
            &&& once.toggled().mine_only == app.mine_only
            &&& once.status_message == Some(
                if app.mine_only {
                    "scope: all"@
                } else {
                    "scope: mine"@
                },
            )
        },
        app.toggled().status_message is Some,
        app.toggled().mode == app.mode && app.toggled().show_help == app.show_help
            && app.toggled().picker == app.picker && app.toggled().action_popup == app.action_popup,
{
    if app.own_owners.len() > 0 {
        let twice = app.toggled().toggled();
        assert(twice.matches == ranking(
            AppView { mine_only: app.mine_only, ..app.toggled() }.scores(),
        ));
        assert(AppView { mine_only: app.mine_only, ..app.toggled() }.scores() =~= app.scores());
    }
}

/// Another filter is taken as it is, shows what it matches, and marks the best of
/// that. Everything else stays.
pub proof fn law_another_filter(app: AppView, filter: Seq<char>)
    requires
        app.wf(),
    ensures
        ({
            let next = app.filtered_by(filter);
            &&& next.filter == filter
            &&& next.cursor == 0
            &&& next.wf()
            &&& next.rows == app.rows && next.own_owners == app.own_owners && next.mine_only
                == app.mine_only && next.mode == app.mode && next.show_help == app.show_help
                && next.picker == app.picker && next.action_popup == app.action_popup
                && next.status_message == app.status_message
        }),
{
    let next = app.filtered_by(filter);
    assert(next.scores() =~= (AppView { filter, ..app }).scores());
}

/// A dashboard starts with the user's own rows where owners are configured and with
/// all rows otherwise, without a filter, a note, or anything over it.
pub proof fn law_fresh_dashboard(rows: Seq<DashRowView>, own_owners: Seq<Seq<char>>)
    ensures
        ({
            let app = fresh(rows, own_owners);
            &&& app.rows == rows && app.own_owners == own_owners
            &&& app.mine_only == (own_owners.len() > 0)
            &&& app.filter.len() == 0
            &&& app.cursor == 0
            &&& app.mode == Mode::Normal
            &&& !app.show_help && app.picker is None && app.action_popup is None
                && app.status_message is None
            &&& rows.len() <= usize::MAX ==> app.wf()
            &&& rows.len() <= usize::MAX && own_owners.len() == 0 ==> app.matches == in_order(
                rows.len(),
            )
        }),
{
    let app = fresh(rows, own_owners);
    let bare = AppView { matches: Seq::empty(), ..app };
    assert(app.scores() =~= bare.scores());
    if rows.len() <= usize::MAX {
        law_ranking(app.scores());
        if own_owners.len() == 0 {
            law_everything_is_shown(app);
        }
    }
}

} // verus!
