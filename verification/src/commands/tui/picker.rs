//! The picker of issues and pull requests.
use vstd::prelude::*;
use vstd::string::*;

use crate::commands::tui::rank::{
    in_order, key_scores, law_everything_without_a_query, law_ranking, new_matcher, rank, ranking,
    score_of,
};
use crate::gh::{PickerItem, PickerItemView};
use crate::seqs::{opt_ref_view, views};
use crate::text::{drop_last_char, texts, without_last};

verus! {

/// What a picker offers.
#[derive(Debug, Clone, Copy, PartialEq, Eq, Structural)]
pub enum PickerKind {
    Issues,
    Prs,
}

impl PickerKind {
    /// What the picker is called.
    pub open spec fn title_text(self) -> Seq<char> {
        match self {
            PickerKind::Issues => "Issues"@,
            PickerKind::Prs => "Pull Requests"@,
        }
    }

    /// What the picker is called.
    pub fn title(self) -> (r: &'static str)
        ensures
            r@ == self.title_text(),
    {
        match self {
            PickerKind::Issues => "Issues",
            PickerKind::Prs => "Pull Requests",
        }
    }
}

/// How far a picker is.
#[derive(Debug)]
pub enum PickerState {
    /// Its items are being fetched.
    Loading,
    /// Its items are there.
    Loaded {
        items: Vec<PickerItem>,
        /// The line of each item that the filter is matched against.
        search_keys: Vec<String>,
        filter: String,
        /// The positions of the items shown, the best match first.
        matches: Vec<usize>,
        /// The position in `matches` of the item that is marked.
        cursor: usize,
    },
    /// There is nothing to show but this.
    Error(String),
}

/// The contents of a [`PickerState`].
#[verifier::ext_equal]
pub enum PickerStateView {
    Loading,
    Loaded {
        items: Seq<PickerItemView>,
        search_keys: Seq<Seq<char>>,
        filter: Seq<char>,
        matches: Seq<usize>,
        cursor: usize,
    },
    Error(Seq<char>),
}

impl View for PickerState {
    type V = PickerStateView;

    open spec fn view(&self) -> PickerStateView {
        match self {
            PickerState::Loading => PickerStateView::Loading,
            PickerState::Loaded { items, search_keys, filter, matches, cursor } =>
                PickerStateView::Loaded {
                items: views(items@),
                search_keys: texts(search_keys@),
                filter: filter@,
                matches: matches@,
                cursor: *cursor,
            },
            PickerState::Error(e) => PickerStateView::Error(e@),
        }
    }
}

/// A picker over the dashboard.
pub struct Picker {
    pub kind: PickerKind,
    /// The repository that it was opened for.
    pub repo_label: String,
    pub state: PickerState,
    pub matcher: nucleo::Matcher,
}

/// The contents of a [`Picker`].
#[verifier::ext_equal]
pub struct PickerView {
    pub kind: PickerKind,
    pub repo_label: Seq<char>,
    pub state: PickerStateView,
}

impl View for Picker {
    type V = PickerView;

    open spec fn view(&self) -> PickerView {
        PickerView { kind: self.kind, repo_label: self.repo_label@, state: self.state@ }
    }
}

/// The lines of the items that a filter is matched against.
pub open spec fn search_keys_of(items: Seq<PickerItemView>) -> Seq<Seq<char>> {
    items.map_values(|i: PickerItemView| i.search_key())
}

/// A picker's items, all of them shown in order.
pub open spec fn loaded_state(items: Seq<PickerItemView>) -> PickerStateView {
    PickerStateView::Loaded {
        items,
        search_keys: search_keys_of(items),
        filter: Seq::empty(),
        matches: Seq::new(items.len(), |i: int| i as usize),
        cursor: 0,
    }
}

impl PickerStateView {
    /// The marked item is one of those shown, and what is shown are items.
    pub open spec fn wf(self) -> bool {
        self matches PickerStateView::Loaded { items, search_keys, matches, cursor, .. } ==> {
            &&& search_keys.len() == items.len()
            &&& items.len() <= usize::MAX
            &&& forall|k: int| 0 <= k < matches.len() ==> #[trigger] matches[k] < items.len()
            &&& cursor < matches.len() || (cursor == 0 && matches.len() == 0)
        }
    }

    /// The state with the items ranked anew by another filter, the best one
    /// marked.
    pub open spec fn filtered_by(self, filter: Seq<char>) -> PickerStateView {
        match self {
            PickerStateView::Loaded { items, search_keys, .. } => PickerStateView::Loaded {
                items,
                search_keys,
                filter,
                matches: ranking(key_scores(filter, search_keys)),
                cursor: 0,
            },
            _ => self,
        }
    }

    /// The filter; empty where there is none.
    pub open spec fn filter_text(self) -> Seq<char> {
        match self {
            PickerStateView::Loaded { filter, .. } => filter,
            _ => Seq::empty(),
        }
    }

    /// The state with the next item marked, where there is one.
    pub open spec fn down(self) -> PickerStateView {
        match self {
            PickerStateView::Loaded { items, search_keys, filter, matches, cursor } =>
                PickerStateView::Loaded {
                items,
                search_keys,
                filter,
                matches,
                cursor: if matches.len() == 0 {
                    cursor
                } else if cursor + 1 < matches.len() {
                    (cursor + 1) as usize
                } else {
                    (matches.len() - 1) as usize
                },
            },
            _ => self,
        }
    }

    /// The state with the item before marked, where there is one.
    pub open spec fn up(self) -> PickerStateView {
        match self {
            PickerStateView::Loaded { items, search_keys, filter, matches, cursor } =>
                PickerStateView::Loaded {
                items,
                search_keys,
                filter,
                matches,
                cursor: if cursor > 0 {
                    (cursor - 1) as usize
                } else {
                    0
                },
            },
            _ => self,
        }
    }

    /// The marked item.
    pub open spec fn marked(self) -> Option<PickerItemView> {
        match self {
            PickerStateView::Loaded { items, matches, cursor, .. } => if cursor < matches.len()
                && matches[cursor as int] < items.len() {
                Some(items[matches[cursor as int] as int])
            } else {
                None
            },
            _ => None,
        }
    }
}

/// What is heard of a fetch.
#[derive(Debug)]
pub enum FetchEvent {
    /// Nothing yet.
    Pending,
    /// The items.
    Items(Vec<PickerItem>),
    /// It failed, for this reason.
    Failed(String),
    /// It ended without saying anything.
    Lost,
}

/// The state of a picker whose items are there, all of them shown in order.
fn loaded_with(items: Vec<PickerItem>) -> (r: PickerState)
    ensures
        r@ == loaded_state(views(items@)),
        r@.wf(),
{
    let mut search_keys: Vec<String> = Vec::new();
    let mut matches: Vec<usize> = Vec::new();
    let ghost all = views(items@);
    let mut i: usize = 0;
    while i < items.len()
        invariant
            i <= items@.len(),
            all == views(items@),
            texts(search_keys@) == search_keys_of(all).take(i as int),
            matches@ == Seq::new(i as nat, |k: int| k as usize),
        decreases items@.len() - i,
    {
        let key = items[i].search_key();
        let ghost was = texts(search_keys@);
        let ghost k = key@;
        search_keys.push(key);
        matches.push(i);
        assert(texts(search_keys@) =~= was.push(k));
        assert(search_keys_of(all).take(i + 1) =~= search_keys_of(all).take(i as int).push(
            search_keys_of(all)[i as int],
        ));
        assert(matches@ =~= Seq::new((i + 1) as nat, |k: int| k as usize));
        i = i + 1;
    }
    assert(search_keys_of(all).take(i as int) =~= search_keys_of(all));
    PickerState::Loaded { items, search_keys, filter: String::new(), matches, cursor: 0 }
}

impl Picker {
    /// A picker whose items are being fetched.
    pub fn loading(kind: PickerKind, repo_label: String) -> (r: Self)
        ensures
            r@ == (PickerView {
                kind,
                repo_label: repo_label@,
                state: PickerStateView::Loading,
            }),
    {
        Picker { kind, repo_label, state: PickerState::Loading, matcher: new_matcher() }
    }

    /// A picker whose items are there.
    pub fn loaded(kind: PickerKind, repo_label: String, items: Vec<PickerItem>) -> (r: Self)
        ensures
            r@ == (PickerView {
                kind,
                repo_label: repo_label@,
                state: loaded_state(views(items@)),
            }),
            r@.state.wf(),
    {
        Picker { kind, repo_label, state: loaded_with(items), matcher: new_matcher() }
    }

    /// A picker with nothing to show but a message.
    pub fn error(kind: PickerKind, repo_label: String, msg: String) -> (r: Self)
        ensures
            r@ == (PickerView {
                kind,
                repo_label: repo_label@,
                state: PickerStateView::Error(msg@),
            }),
    {
        Picker { kind, repo_label, state: PickerState::Error(msg), matcher: new_matcher() }
    }

    /// Whether the items are being fetched.
    pub fn is_loading(&self) -> (r: bool)
        ensures
            r == (self@.state is Loading),
    {
        match self.state {
            PickerState::Loading => true,
            _ => false,
        }
    }

    /// Takes in what is heard of the fetch; says whether that changed anything.
    /// Only a picker that is loading hears anything.
    pub fn poll_fetch(&mut self, event: FetchEvent) -> (r: bool)
        ensures
            final(self)@.kind == old(self)@.kind,
            final(self)@.repo_label == old(self)@.repo_label,
            r == (old(self)@.state is Loading && !(event is Pending)),
            final(self)@.state == (if old(self)@.state is Loading {
                match event {
                    FetchEvent::Pending => PickerStateView::Loading,
                    FetchEvent::Items(items) => loaded_state(views(items@)),
                    FetchEvent::Failed(msg) => PickerStateView::Error(msg@),
                    FetchEvent::Lost => PickerStateView::Error(
                        "fetch task ended without a result"@,
                    ),
                }
            } else {
                old(self)@.state
            }),
            old(self)@.state.wf() ==> final(self)@.state.wf(),
    {
        if !self.is_loading() {
            return false;
        }
        match event {
            FetchEvent::Pending => false,
            FetchEvent::Items(items) => {
                self.state = loaded_with(items);
                true
            },
            FetchEvent::Failed(msg) => {
                self.state = PickerState::Error(msg);
                true
            },
            FetchEvent::Lost => {
                self.state = PickerState::Error("fetch task ended without a result".to_owned());
                true
            },
        }
    }

    /// Ranks the items anew by the filter, and marks the best one. Without a
    /// filter they stand in the order they came in.
    pub fn refilter(&mut self)
        ensures
            final(self)@ == (PickerView {
                state: old(self)@.state.filtered_by(old(self)@.state.filter_text()),
                ..old(self)@
            }),
            old(self)@.state.wf() ==> final(self)@.state.wf(),
    {
        proof {
            if self@.state.wf() {
                if let PickerStateView::Loaded { search_keys, filter, .. } = self@.state {
                    law_ranking(key_scores(filter, search_keys));
                }
            }
        }
        match &mut self.state {
            PickerState::Loaded { search_keys, filter, matches, cursor, .. } => {
                *matches = rank(filter.as_str(), search_keys, &mut self.matcher);
                *cursor = 0;
            },
            _ => {},
        }
    }

    /// Adds a character to the filter and ranks the items anew.
    pub fn type_char(&mut self, c: char)
        ensures
            final(self)@ == (PickerView {
                state: old(self)@.state.filtered_by(old(self)@.state.filter_text().push(c)),
                ..old(self)@
            }),
            old(self)@.state.wf() ==> final(self)@.state.wf(),
    {
        match &mut self.state {
            PickerState::Loaded { filter, .. } => {
                filter.push(c);
            },
            _ => {},
        }
        self.refilter();
    }

    /// Takes the last character off the filter and ranks the items anew.
    pub fn backspace(&mut self)
        ensures
            final(self)@ == (PickerView {
                state: old(self)@.state.filtered_by(
                    without_last(old(self)@.state.filter_text()),
                ),
                ..old(self)@
            }),
            old(self)@.state.wf() ==> final(self)@.state.wf(),
    {
        match &mut self.state {
            PickerState::Loaded { filter, .. } => {
                *filter = drop_last_char(filter.as_str());
            },
            _ => {},
        }
        self.refilter();
    }

    /// Marks the next item.
    pub fn move_down(&mut self)
        ensures
            final(self)@ == (PickerView { state: old(self)@.state.down(), ..old(self)@ }),
            old(self)@.state.wf() ==> final(self)@.state.wf(),
    {
        match &mut self.state {
            PickerState::Loaded { matches, cursor, .. } => {
                let shown: usize = matches.len();
                if shown > 0 {
                    *cursor = if *cursor < shown - 1 {
                        *cursor + 1
                    } else {
                        shown - 1
                    };
                }
            },
            _ => {},
        }
    }

    /// Marks the item before.
    pub fn move_up(&mut self)
        ensures
            final(self)@ == (PickerView { state: old(self)@.state.up(), ..old(self)@ }),
            old(self)@.state.wf() ==> final(self)@.state.wf(),
    {
        match &mut self.state {
            PickerState::Loaded { cursor, .. } => {
                if *cursor > 0 {
                    *cursor = *cursor - 1;
                }
            },
            _ => {},
        }
    }

    /// The marked item, if there is one.
    pub fn selected(&self) -> (r: Option<&PickerItem>)
        ensures
            opt_ref_view(r) == self@.state.marked(),
    {
        match &self.state {
            PickerState::Loaded { items, matches, cursor, .. } => {
                if *cursor < matches.len() {
                    let i: usize = matches[*cursor];
                    if i < items.len() {
                        assert(views(items@)[i as int] == items@[i as int]@);
                        Some(&items[i])
                    } else {
                        None
                    }
                } else {
                    None
                }
            },
            _ => None,
        }
    }
}

/// The items of a picker that has just been filled are all shown, in the order that
/// they came in, the first one marked; and an emptied filter shows them so again.
pub proof fn law_everything_is_offered(items: Seq<PickerItemView>)
    requires
        items.len() <= usize::MAX,
    ensures
        loaded_state(items).wf(),
        loaded_state(items).filter_text().len() == 0,
        loaded_state(items).filtered_by(Seq::empty()) == loaded_state(items),
        items.len() > 0 ==> loaded_state(items).marked() == Some(items[0]),
        loaded_state(items) matches PickerStateView::Loaded { matches, search_keys, .. } && {
            &&& matches.len() == items.len() && search_keys.len() == items.len()
            &&& forall|i: int| 0 <= i < items.len() ==> #[trigger] matches[i] == i
            &&& forall|i: int|
                0 <= i < items.len() ==> #[trigger] search_keys[i] == items[i].search_key()
        },
{
    law_everything_without_a_query(search_keys_of(items));
    assert(in_order(items.len()) =~= Seq::new(items.len(), |i: int| i as usize));
}

/// A filter keeps the items, shows those that it matches, the best first and equal
/// ones in order, and marks the first of them.
pub proof fn law_filtered_items(state: PickerStateView, text: Seq<char>)
    requires
        state.wf(),
        state is Loaded,
    ensures
        ({
            let next = state.filtered_by(text);
            &&& next.wf()
            &&& next is Loaded
            &&& next->items == state->items
            &&& next->search_keys == state->search_keys
            &&& next->filter == text
            &&& next->cursor == 0
            &&& forall|i: int|
                0 <= i < state->items.len() ==> next->matches.contains(i as usize) == score_of(
                    text,
                    #[trigger] state->search_keys[i],
                ) is Some
            &&& forall|a: int, b: int|
                #![trigger next->matches[a], next->matches[b]]
                0 <= a < b < next->matches.len() ==> {
                    let i = next->matches[a];
                    let j = next->matches[b];
                    let x = score_of(text, state->search_keys[i as int])->0;
                    let y = score_of(text, state->search_keys[j as int])->0;
                    x > y || (x == y && i < j)
                }
        }),
{
    let keys = state->search_keys;
    let scores = key_scores(text, keys);
    law_ranking(scores);
    let order = ranking(scores);
    assert forall|i: int| 0 <= i < keys.len() implies order.contains(i as usize) == score_of(
        text,
        #[trigger] keys[i],
    ) is Some by {
        assert(scores[i] == score_of(text, keys[i]));
        if order.contains(i as usize) {
            let k = choose|k: int| 0 <= k < order.len() && order[k] == i as usize;
            assert(order[k] < scores.len());
        }
    }
}

/// The mark moves down and up by one item, and stays at either end. Nothing else
/// changes, and a step up undoes one down.
pub proof fn law_moving_in_a_picker(state: PickerStateView)
    requires
        state.wf(),
        state is Loaded,
        state->matches.len() <= usize::MAX,
    ensures
        ({
            let n = state->matches.len();
            let at = state->cursor;
            &&& at + 1 < n ==> state.down()->cursor == at + 1 && state.down().up() == state
            &&& at + 1 >= n ==> state.down() == state
            &&& at > 0 ==> state.up()->cursor == at - 1 && state.up().down() == state
            &&& at == 0 ==> state.up() == state
            &&& state.down()->matches == state->matches && state.up()->matches == state->matches
        }),
{
}

/// What is marked is an item, unless none is shown.
pub proof fn law_marked_item(state: PickerStateView)
    requires
        state.wf(),
    ensures
        state.marked() is Some == (state is Loaded && state->matches.len() > 0),
        state.marked() is Some ==> state->items.contains(state.marked()->0) && state.marked()->0
            == state->items[state->matches[state->cursor as int] as int],
{
    if state.marked() is Some {
        let i = state->matches[state->cursor as int];
        assert(state->items[i as int] == state.marked()->0);
    }
}

/// The two pickers are called differently.
pub proof fn law_titles_differ(a: PickerKind, b: PickerKind)
    ensures
        (a.title_text() == b.title_text()) == (a == b),
        PickerKind::Issues.title_text() == seq!['I', 's', 's', 'u', 'e', 's'],
        PickerKind::Prs.title_text()[0] == 'P',
{
    reveal_strlit("Issues");
    reveal_strlit("Pull Requests");
    assert("Issues"@.len() != "Pull Requests"@.len());
    assert("Issues"@ =~= seq!['I', 's', 's', 'u', 'e', 's']);
}

} // verus!
