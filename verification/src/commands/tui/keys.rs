//! The dashboard's keys.
use vstd::prelude::*;
use vstd::string::*;

use crate::actions::{ActionError, ActionKind, ActionOutcome};
use crate::commands::tui::app::{ActionPopup, ActionPopupView, App, AppView, Mode};
use crate::commands::tui::picker::{FetchEvent, Picker, PickerKind, PickerStateView, PickerView};
use crate::commands::tui::rank::law_ranking;
use crate::gh::PickerItem;
use crate::seqs::{first_index, lemma_first_index, lemma_is_first_index};
use crate::text::{
    chars_of, drop_last_char, has, lemma_stands_between, occurs_at, opt_text, same_text, stands_at,
    string_of, without_last,
};

verus! {

/// A key that the dashboard knows.
#[derive(Debug, Clone, Copy, PartialEq, Eq, Structural)]
pub enum KeyCode {
    Esc,
    Enter,
    Backspace,
    Up,
    Down,
    /// A function key.
    F(u8),
    Char(char),
    /// Any other key.
    Other,
}

/// A key, pressed or let go.
#[derive(Debug, Clone, Copy, PartialEq, Eq, Structural)]
pub struct KeyEvent {
    pub code: KeyCode,
    /// The control key was down.
    pub control: bool,
    /// The key was let go.
    pub release: bool,
}

impl KeyEvent {
    /// Whether this is Ctrl-C.
    pub open spec fn interrupts(self) -> bool {
        self.code == KeyCode::Char('c') && self.control
    }

    /// Whether this is Ctrl-C.
    pub fn is_interrupt(self) -> (r: bool)
        ensures
            r == self.interrupts(),
    {
        self.control && match self.code {
            KeyCode::Char(c) => c == 'c',
            _ => false,
        }
    }
}

/// The three parts of a slug: up to the first slash, up to the second, and the
/// rest. A text with fewer slashes is no slug.
pub open spec fn slug_parts(slug: Seq<char>) -> Option<(Seq<char>, Seq<char>, Seq<char>)> {
    let slash = |c: char| c == '/';
    let a = first_index(slug, slash);
    let rest = slug.skip(a + 1);
    let b = first_index(rest, slash);
    if a >= slug.len() || b >= rest.len() {
        None
    } else {
        Some((slug.take(a), rest.take(b), rest.skip(b + 1)))
    }
}

/// The position of the first slash from `from` on; the length where there is none.
fn next_slash(s: &Vec<char>, from: usize) -> (r: usize)
    requires
        from <= s@.len(),
    ensures
        from <= r <= s@.len(),
        r - from == first_index(s@.skip(from as int), |c: char| c == '/'),
{
    let ghost rest = s@.skip(from as int);
    let ghost slash = |c: char| c == '/';
    let mut i: usize = from;
    while i < s.len() && s[i] != '/'
        invariant
            from <= i <= s@.len(),
            rest == s@.skip(from as int),
            slash == (|c: char| c == '/'),
            forall|k: int| 0 <= k < i - from ==> !slash(#[trigger] rest[k]),
        decreases s@.len() - i,
    {
        assert(rest[i - from] == s@[i as int]);
        i = i + 1;
    }
    proof {
        if i < s@.len() {
            assert(rest[i - from] == s@[i as int]);
        }
        lemma_is_first_index(rest, slash, i - from);
    }
    i
}

/// The three parts of a slug: host, owner and name.
pub fn split_slug(slug: &str) -> (r: Option<(String, String, String)>)
    ensures
        match r {
            Some((host, owner, name)) => slug_parts(slug@) == Some((host@, owner@, name@)),
            None => slug_parts(slug@) is None,
        },
{
    let v = chars_of(slug);
    let total: usize = v.len();
    let a: usize = next_slash(&v, 0);
    assert(v@.skip(0) =~= v@);
    if a >= total {
        return None;
    }
    let b: usize = next_slash(&v, a + 1);
    if b >= total {
        return None;
    }
    let host = string_of(&v, 0, a);
    let owner = string_of(&v, a + 1, b);
    let name = string_of(&v, b + 1, total);
    proof {
        let rest = v@.skip(a + 1);
        assert(host@ =~= v@.take(a as int));
        assert(owner@ =~= rest.take(b - (a + 1)));
        assert(name@ =~= rest.skip(b - (a + 1) + 1));
    }
    Some((host, owner, name))
}

/// A fetch that a picker waits for.
#[derive(Debug)]
pub struct FetchRequest {
    pub kind: PickerKind,
    pub owner: String,
    pub name: String,
}

/// How a fetch went.
#[derive(Debug)]
pub enum FetchOutcome {
    /// There is no token.
    NoToken,
    /// The client could not be built.
    ClientFailed(String),
    Items(Vec<PickerItem>),
    Failed(String),
}

/// What a picker hears of a fetch that is over.
pub fn fetch_event(outcome: FetchOutcome) -> (r: FetchEvent)
    ensures
        match outcome {
            FetchOutcome::NoToken => r matches FetchEvent::Failed(m) && m@
                == "no GITHUB_TOKEN — set the env var or run `gh auth login`"@,
            FetchOutcome::ClientFailed(e) => r matches FetchEvent::Failed(m) && m@
                == "gh client init failed: "@ + e@,
            FetchOutcome::Items(items) => r == FetchEvent::Items(items),
            FetchOutcome::Failed(e) => r == FetchEvent::Failed(e),
        },
{
    match outcome {
        FetchOutcome::NoToken => FetchEvent::Failed(
            "no GITHUB_TOKEN — set the env var or run `gh auth login`".to_owned(),
        ),
        FetchOutcome::ClientFailed(e) => FetchEvent::Failed(
            "gh client init failed: ".to_owned().concat(e.as_str()),
        ),
        FetchOutcome::Items(items) => FetchEvent::Items(items),
        FetchOutcome::Failed(e) => FetchEvent::Failed(e),
    }
}

/// What the picker of a repository starts as: loading on github.com, an error
/// on any other host or where the slug has not three parts.
pub open spec fn picker_for(kind: PickerKind, slug: Seq<char>) -> PickerView {
    PickerView {
        kind,
        repo_label: slug,
        state: match slug_parts(slug) {
            None => PickerStateView::Error("can't parse slug `"@ + slug + "`"@),
            Some((host, _, _)) => if host == "github.com"@ {
                PickerStateView::Loading
            } else {
                PickerStateView::Error(
                    kind.title_text() + " are only available on github.com (this repo is on `"@
                        + host + "`)"@,
                )
            },
        },
    }
}

/// The dashboard with a picker opened for the marked row, where there is one.
pub open spec fn with_picker(app: AppView, kind: PickerKind) -> AppView {
    match app.marked_row() {
        Some(row) => app.picking(picker_for(kind, row.slug)),
        None => app,
    }
}

/// What is fetched for the picker of the marked row: kind, owner and name.
pub open spec fn fetch_for(app: AppView, kind: PickerKind) -> Option<
    (PickerKind, Seq<char>, Seq<char>),
> {
    match app.marked_row() {
        Some(row) => match slug_parts(row.slug) {
            Some((host, owner, name)) => if host == "github.com"@ {
                Some((kind, owner, name))
            } else {
                None
            },
            None => None,
        },
        None => None,
    }
}

/// What is to be fetched: kind, owner and name.
pub open spec fn fetches(request: Option<FetchRequest>) -> Option<
    (PickerKind, Seq<char>, Seq<char>),
> {
    match request {
        Some(f) => Some((f.kind, f.owner@, f.name@)),
        None => None,
    }
}

/// Opens a picker for the marked row, where there is one. Says what is to be
/// fetched for it, where anything is.
pub fn open_picker(app: &mut App, kind: PickerKind) -> (r: Option<FetchRequest>)
    requires
        old(app)@.wf(),
    ensures
        final(app)@ == with_picker(old(app)@, kind),
        final(app)@.wf(),
        fetches(r) == fetch_for(old(app)@, kind),
{
    let at = match app.selected_row() {
        Some(i) => i,
        None => {
            return None;
        },
    };
    assert(app@.rows[at as int] == app.rows@[at as int]@);
    let slug = app.rows[at].slug.clone();
    match split_slug(slug.as_str()) {
        None => {
            let message = "can't parse slug `".to_owned().concat(slug.as_str()).concat("`");
            app.picker = Some(Picker::error(kind, slug, message));
            assert(app@.scores() =~= old(app)@.scores());
            None
        },
        Some((host, owner, name)) => {
            if same_text(host.as_str(), "github.com") {
                app.picker = Some(Picker::loading(kind, slug));
                assert(app@.scores() =~= old(app)@.scores());
                Some(FetchRequest { kind, owner, name })
            } else {
                let message = kind.title().to_owned().concat(
                    " are only available on github.com (this repo is on `",
                ).concat(host.as_str()).concat("`)");
                app.picker = Some(Picker::error(kind, slug, message));
                assert(app@.scores() =~= old(app)@.scores());
                None
            }
        },
    }
}

/// The dashboard after a key at a picker, and the address to be opened.
pub open spec fn picker_pressed(app: AppView, code: KeyCode) -> (AppView, Option<Seq<char>>) {
    match app.picker {
        None => (app, None),
        Some(p) => {
            let closed = AppView { picker: None, ..app };
            let now = |state: PickerStateView| app.picking(PickerView { state, ..p });
            match code {
                KeyCode::Esc => (closed, None),
                KeyCode::Char('q') => (closed, None),
                _ => if p.state is Loading {
                    (app, None)
                } else {
                    match code {
                        KeyCode::Char('j') => (now(p.state.down()), None),
                        KeyCode::Down => (now(p.state.down()), None),
                        KeyCode::Char('k') => (now(p.state.up()), None),
                        KeyCode::Up => (now(p.state.up()), None),
                        KeyCode::Enter => (
                            closed,
                            match p.state.marked() {
                                Some(item) => Some(item.html_url),
                                None => None,
                            },
                        ),
                        KeyCode::Backspace => (
                            now(p.state.filtered_by(without_last(p.state.filter_text()))),
                            None,
                        ),
                        KeyCode::Char(c) => (
                            now(p.state.filtered_by(p.state.filter_text().push(c))),
                            None,
                        ),
                        _ => (app, None),
                    }
                },
            }
        },
    }
}

/// Reads a key at the picker. Esc and q close it; while it is loading it takes
/// no other key. Says which address is to be opened, where one is.
pub fn handle_picker_key(app: &mut App, key: KeyEvent) -> (r: Option<String>)
    ensures
        ({
            let (now, url) = picker_pressed(old(app)@, key.code);
            final(app)@ == now && opt_text(r) == url
        }),
        old(app)@.wf() ==> final(app)@.wf(),
{
    let ghost before = app@;
    let mut url: Option<String> = None;
    let mut close = false;
    match &mut app.picker {
        None => {},
        Some(picker) => match key.code {
            KeyCode::Esc => {
                close = true;
            },
            KeyCode::Char('q') => {
                close = true;
            },
            _ => {
                if !picker.is_loading() {
                    match key.code {
                        KeyCode::Char('j') => picker.move_down(),
                        KeyCode::Down => picker.move_down(),
                        KeyCode::Char('k') => picker.move_up(),
                        KeyCode::Up => picker.move_up(),
                        KeyCode::Enter => {
                            url = match picker.selected() {
                                Some(item) => Some(item.html_url.clone()),
                                None => None,
                            };
                            close = true;
                        },
                        KeyCode::Backspace => picker.backspace(),
                        KeyCode::Char(c) => picker.type_char(c),
                        _ => {},
                    }
                }
            },
        },
    }
    if close {
        app.picker = None;
    }
    assert(app@.scores() =~= before.scores());
    url
}

/// An action that is to be run in the marked row's checkout.
#[derive(Debug)]
pub struct ActionRequest {
    pub kind: ActionKind,
    pub repo_label: String,
    pub path: String,
}

/// The action for the marked row: kind, label and path.
pub open spec fn action_for(app: AppView, kind: ActionKind) -> Option<
    (ActionKind, Seq<char>, Seq<char>),
> {
    match app.marked_row() {
        Some(row) => Some((kind, row.slug, row.path)),
        None => None,
    }
}

/// What is to be run: kind, label and path.
pub open spec fn acts(request: Option<ActionRequest>) -> Option<(ActionKind, Seq<char>, Seq<char>)> {
    match request {
        Some(a) => Some((a.kind, a.repo_label@, a.path@)),
        None => None,
    }
}

/// The action to be run for the marked row, if there is one.
pub fn run_action_for_selected(app: &App, kind: ActionKind) -> (r: Option<ActionRequest>)
    requires
        app@.wf(),
    ensures
        acts(r) == action_for(app@, kind),
{
    match app.selected_row() {
        None => None,
        Some(at) => {
            let row = &app.rows[at];
            assert(app@.rows[at as int] == row@);
            Some(ActionRequest { kind, repo_label: row.slug.clone(), path: row.path.clone() })
        },
    }
}

/// Shows what came of an action.
pub fn record_action(
    app: &mut App,
    request: ActionRequest,
    result: Result<ActionOutcome, ActionError>,
)
    ensures
        final(app)@ == (AppView {
            action_popup: Some(
                ActionPopupView {
                    kind: request.kind,
                    repo_label: request.repo_label@,
                    outcome: match result {
                        Ok(o) => Some(o@),
                        Err(_) => None,
                    },
                    error: match result {
                        Ok(_) => Seq::empty(),
                        Err(e) => e.text(),
                    },
                },
            ),
            ..old(app)@
        }),
        old(app)@.wf() ==> final(app)@.wf(),
{
    let (outcome, error) = match result {
        Ok(o) => (Some(o), String::new()),
        Err(e) => (None, e.message()),
    };
    app.action_popup = Some(
        ActionPopup { kind: request.kind, repo_label: request.repo_label, outcome, error },
    );
    assert(app@.scores() =~= old(app)@.scores());
}

/// The slug of the marked row, which is to be copied.
pub open spec fn yanked(app: AppView) -> Option<Seq<char>> {
    match app.marked_row() {
        Some(row) => Some(row.slug),
        None => None,
    }
}

/// The slug of the marked row, which is to be copied; `None` without one.
pub fn yank_selected_slug(app: &App) -> (r: Option<String>)
    requires
        app@.wf(),
    ensures
        opt_text(r) == yanked(app@),
{
    match app.selected_row() {
        None => None,
        Some(at) => {
            let row = &app.rows[at];
            assert(app@.rows[at as int] == row@);
            Some(row.slug.clone())
        },
    }
}

/// Notes that the slug was copied, or why it was not.
pub fn record_yank(app: &mut App, slug: &str, failure: Option<&str>)
    ensures
        final(app)@ == old(app)@.noting(
            match failure {
                None => "yanked: "@ + slug@,
                Some(e) => "yank failed: "@ + e@,
            },
        ),
        old(app)@.wf() ==> final(app)@.wf(),
{
    match failure {
        None => app.note("yanked: ".to_owned().concat(slug)),
        Some(e) => app.note("yank failed: ".to_owned().concat(e)),
    }
}

/// Whether a slug is of a repository that has no remote.
pub open spec fn is_local(slug: Seq<char>) -> bool {
    occurs_at(slug, "local/"@, 0)
}

/// The dashboard after asking for the home page of the marked row, and the
/// address to be opened.
pub open spec fn home_asked(app: AppView) -> (AppView, Option<Seq<char>>) {
    match app.marked_row() {
        None => (app, None),
        Some(row) => if is_local(row.slug) {
            (app.noting("no repo home: local-only repo"@), None)
        } else {
            (app, Some("https://"@ + row.slug))
        },
    }
}

/// The address of the marked row's home page. A local repository has none,
/// which is noted.
pub fn open_selected_repo_home(app: &mut App) -> (r: Option<String>)
    requires
        old(app)@.wf(),
    ensures
        ({
            let (now, url) = home_asked(old(app)@);
            final(app)@ == now && opt_text(r) == url
        }),
        final(app)@.wf(),
{
    let at = match app.selected_row() {
        Some(i) => i,
        None => {
            return None;
        },
    };
    assert(app@.rows[at as int] == app.rows@[at as int]@);
    let slug = app.rows[at].slug.clone();
    let local = stands_at(&chars_of(slug.as_str()), &chars_of("local/"), 0);
    if local {
        app.note("no repo home: local-only repo".to_owned());
        return None;
    }
    Some("https://".to_owned().concat(slug.as_str()))
}

/// Notes that a home page was opened, or why it was not.
pub fn record_open(app: &mut App, url: &str, failure: Option<&str>)
    ensures
        final(app)@ == old(app)@.noting(
            match failure {
                None => "opened: "@ + url@,
                Some(e) => "open failed: "@ + e@,
            },
        ),
        old(app)@.wf() ==> final(app)@.wf(),
{
    match failure {
        None => app.note("opened: ".to_owned().concat(url)),
        Some(e) => app.note("open failed: ".to_owned().concat(e)),
    }
}

/// What is to be done after a key.
#[derive(Debug)]
pub enum Step {
    /// Nothing.
    Stay,
    /// Leave the dashboard, with the position of the chosen row if one was.
    Exit(Option<usize>),
    Fetch(FetchRequest),
    Act(ActionRequest),
    /// Copy a slug.
    Yank(String),
    /// Open a repository's home page.
    OpenHome(String),
    /// Open a picked item's page.
    OpenItem(String),
}

/// The contents of a [`Step`].
#[verifier::ext_equal]
pub enum StepView {
    Stay,
    Exit(Option<usize>),
    Fetch((PickerKind, Seq<char>, Seq<char>)),
    Act((ActionKind, Seq<char>, Seq<char>)),
    Yank(Seq<char>),
    OpenHome(Seq<char>),
    OpenItem(Seq<char>),
}

impl View for Step {
    type V = StepView;

    open spec fn view(&self) -> StepView {
        match self {
            Step::Stay => StepView::Stay,
            Step::Exit(i) => StepView::Exit(*i),
            Step::Fetch(f) => StepView::Fetch((f.kind, f.owner@, f.name@)),
            Step::Act(a) => StepView::Act((a.kind, a.repo_label@, a.path@)),
            Step::Yank(s) => StepView::Yank(s@),
            Step::OpenHome(u) => StepView::OpenHome(u@),
            Step::OpenItem(u) => StepView::OpenItem(u@),
        }
    }
}

/// What follows a key in normal mode, where the note on the last key is gone.
pub open spec fn normal_pressed(app: AppView, key: KeyEvent) -> (AppView, StepView) {
    match key.code {
        KeyCode::Char('q') => (app, StepView::Exit(None)),
        KeyCode::Esc => (app, StepView::Exit(None)),
        KeyCode::Char('?') => (AppView { show_help: true, ..app }, StepView::Stay),
        KeyCode::F(1) => (AppView { show_help: true, ..app }, StepView::Stay),
        KeyCode::Char('i') => (
            with_picker(app, PickerKind::Issues),
            match fetch_for(app, PickerKind::Issues) {
                Some(f) => StepView::Fetch(f),
                None => StepView::Stay,
            },
        ),
        KeyCode::Char('p') => (
            with_picker(app, PickerKind::Prs),
            match fetch_for(app, PickerKind::Prs) {
                Some(f) => StepView::Fetch(f),
                None => StepView::Stay,
            },
        ),
        KeyCode::Char('f') => (
            app,
            match action_for(app, ActionKind::Fetch) {
                Some(a) => StepView::Act(a),
                None => StepView::Stay,
            },
        ),
        KeyCode::Char('P') => (
            app,
            match action_for(app, ActionKind::Push) {
                Some(a) => StepView::Act(a),
                None => StepView::Stay,
            },
        ),
        KeyCode::Char('y') => (
            app,
            match yanked(app) {
                Some(slug) => StepView::Yank(slug),
                None => StepView::Stay,
            },
        ),
        KeyCode::Char('o') => {
            let (now, url) = home_asked(app);
            (
                now,
                match url {
                    Some(u) => StepView::OpenHome(u),
                    None => StepView::Stay,
                },
            )
        },
        KeyCode::Char('m') => (app.toggled(), StepView::Stay),
        KeyCode::Char('j') => (app.down(), StepView::Stay),
        KeyCode::Down => (app.down(), StepView::Stay),
        KeyCode::Char('k') => (app.up(), StepView::Stay),
        KeyCode::Up => (app.up(), StepView::Stay),
        KeyCode::Char('g') => (AppView { cursor: 0, ..app }, StepView::Stay),
        KeyCode::Char('G') => (
            AppView {
                cursor: if app.matches.len() > 0 {
                    (app.matches.len() - 1) as usize
                } else {
                    app.cursor
                },
                ..app
            },
            StepView::Stay,
        ),
        KeyCode::Char('/') => (AppView { mode: Mode::Filter, ..app }, StepView::Stay),
        KeyCode::Enter => (app, StepView::Exit(app.marked())),
        _ => (
            app,
            if key.interrupts() {
                StepView::Exit(None)
            } else {
                StepView::Stay
            },
        ),
    }
}

/// The dashboard after a key in filter mode. Every character is typed.
pub open spec fn filter_pressed(app: AppView, code: KeyCode) -> AppView {
    match code {
        KeyCode::Esc => AppView { mode: Mode::Normal, ..app.filtered_by(Seq::empty()) },
        KeyCode::Enter => AppView { mode: Mode::Normal, ..app },
        KeyCode::Backspace => app.filtered_by(without_last(app.filter)),
        KeyCode::Char(c) => app.filtered_by(app.filter.push(c)),
        _ => app,
    }
}

/// What follows a key. What lies on top reads it: the result of an action, then
/// the picker, then the help, then the dashboard itself.
pub open spec fn pressed(app: AppView, key: KeyEvent) -> (AppView, StepView) {
    if key.release {
        (app, StepView::Stay)
    } else if (app.action_popup is Some || app.picker is Some || app.show_help)
        && key.interrupts() {
        (app, StepView::Exit(None))
    } else if app.action_popup is Some {
        (AppView { action_popup: None, ..app }, StepView::Stay)
    } else if app.picker is Some {
        let (now, url) = picker_pressed(app, key.code);
        (
            now,
            match url {
                Some(u) => StepView::OpenItem(u),
                None => StepView::Stay,
            },
        )
    } else if app.show_help {
        let dismissed = key.code == KeyCode::Esc || key.code == KeyCode::Char('q') || key.code
            == KeyCode::Char('?') || key.code == KeyCode::F(1);
        (AppView { show_help: !dismissed, ..app }, StepView::Stay)
    } else {
        match app.mode {
            Mode::Normal => normal_pressed(AppView { status_message: None, ..app }, key),
            Mode::Filter => (filter_pressed(app, key.code), StepView::Stay),
        }
    }
}

/// Reads a key in normal mode.
fn handle_normal_key(app: &mut App, key: KeyEvent) -> (r: Step)
    requires
        old(app)@.wf(),
    ensures
        ({
            let (now, step) = normal_pressed(old(app)@, key);
            final(app)@ == now && r@ == step
        }),
        final(app)@.wf(),
{
    match key.code {
        KeyCode::Char('q') => Step::Exit(None),
        KeyCode::Esc => Step::Exit(None),
        KeyCode::Char('?') => show_help(app),
        KeyCode::F(1) => show_help(app),
        KeyCode::Char('i') => match open_picker(app, PickerKind::Issues) {
            Some(f) => Step::Fetch(f),
            None => Step::Stay,
        },
        KeyCode::Char('p') => match open_picker(app, PickerKind::Prs) {
            Some(f) => Step::Fetch(f),
            None => Step::Stay,
        },
        KeyCode::Char('f') => match run_action_for_selected(app, ActionKind::Fetch) {
            Some(a) => Step::Act(a),
            None => Step::Stay,
        },
        KeyCode::Char('P') => match run_action_for_selected(app, ActionKind::Push) {
            Some(a) => Step::Act(a),
            None => Step::Stay,
        },
        KeyCode::Char('y') => match yank_selected_slug(app) {
            Some(slug) => Step::Yank(slug),
            None => Step::Stay,
        },
        KeyCode::Char('o') => match open_selected_repo_home(app) {
            Some(url) => Step::OpenHome(url),
            None => Step::Stay,
        },
        KeyCode::Char('m') => {
            app.toggle_mine_only();
            Step::Stay
        },
        KeyCode::Char('j') => {
            app.move_down();
            Step::Stay
        },
        KeyCode::Down => {
            app.move_down();
            Step::Stay
        },
        KeyCode::Char('k') => {
            app.move_up();
            Step::Stay
        },
        KeyCode::Up => {
            app.move_up();
            Step::Stay
        },
        KeyCode::Char('g') => {
            app.cursor = 0;
            assert(app@.scores() =~= old(app)@.scores());
            Step::Stay
        },
        KeyCode::Char('G') => {
            if app.matches.len() > 0 {
                app.cursor = app.matches.len() - 1;
            }
            assert(app@.scores() =~= old(app)@.scores());
            Step::Stay
        },
        KeyCode::Char('/') => {
            app.mode = Mode::Filter;
            assert(app@.scores() =~= old(app)@.scores());
            Step::Stay
        },
        KeyCode::Enter => Step::Exit(app.selected_row()),
        _ => {
            if key.is_interrupt() {
                Step::Exit(None)
            } else {
                Step::Stay
            }
        },
    }
}

/// Shows the help.
fn show_help(app: &mut App) -> (r: Step)
    ensures
        final(app)@ == (AppView { show_help: true, ..old(app)@ }),
        old(app)@.wf() ==> final(app)@.wf(),
        r is Stay,
{
    app.show_help = true;
    assert(app@.scores() =~= old(app)@.scores());
    Step::Stay
}

/// Reads a key in filter mode.
fn handle_filter_key(app: &mut App, code: KeyCode)
    requires
        old(app)@.wf(),
    ensures
        final(app)@ == filter_pressed(old(app)@, code),
        final(app)@.wf(),
{
    match code {
        KeyCode::Esc => {
            app.filter = String::new();
            app.refilter();
            app.mode = Mode::Normal;
            assert(app@.scores() =~= old(app)@.filtered_by(Seq::empty()).scores());
            assert(app@.scores() =~= (AppView { filter: Seq::empty(), ..old(app)@ }).scores());
        },
        KeyCode::Enter => {
            app.mode = Mode::Normal;
            assert(app@.scores() =~= old(app)@.scores());
        },
        KeyCode::Backspace => {
            app.filter = drop_last_char(app.filter.as_str());
            app.refilter();
        },
        KeyCode::Char(c) => {
            app.filter.push(c);
            app.refilter();
        },
        _ => {},
    }
}

/// Reads a key, and says what is to be done.
pub fn handle_key(app: &mut App, key: KeyEvent) -> (r: Step)
    requires
        old(app)@.wf(),
    ensures
        ({
            let (now, step) = pressed(old(app)@, key);
            final(app)@ == now && r@ == step
        }),
        final(app)@.wf(),
{
    let ghost before = app@;
    if key.release {
        return Step::Stay;
    }
    if app.action_popup.is_some() {
        if key.is_interrupt() {
            return Step::Exit(None);
        }
        app.action_popup = None;
        assert(app@.scores() =~= before.scores());
        return Step::Stay;
    }
    if app.picker.is_some() {
        if key.is_interrupt() {
            return Step::Exit(None);
        }
        return match handle_picker_key(app, key) {
            Some(url) => Step::OpenItem(url),
            None => Step::Stay,
        };
    }
    if app.show_help {
        if key.is_interrupt() {
            return Step::Exit(None);
        }
        match key.code {
            KeyCode::Esc => app.show_help = false,
            KeyCode::Char('q') => app.show_help = false,
            KeyCode::Char('?') => app.show_help = false,
            KeyCode::F(1) => app.show_help = false,
            _ => {},
        }
        assert(app@.scores() =~= before.scores());
        return Step::Stay;
    }
    match app.mode {
        Mode::Normal => {
            app.status_message = None;
            assert(app@.scores() =~= before.scores());
            handle_normal_key(app, key)
        },
        Mode::Filter => {
            handle_filter_key(app, key.code);
            Step::Stay
        },
    }
}

/// Ctrl-C leaves the dashboard whatever lies on top, unless it is typed into
/// the filter. No row is chosen by it.
pub proof fn law_interrupt_leaves(app: AppView, key: KeyEvent)
    requires
        key.interrupts(),
        !key.release,
        app.mode == Mode::Normal || app.action_popup is Some || app.picker is Some
            || app.show_help,
    ensures
        pressed(app, key).1 == StepView::Exit(None),
{
}

/// A key that is let go does nothing.
pub proof fn law_release_does_nothing(app: AppView, key: KeyEvent)
    requires
        key.release,
    ensures
        pressed(app, key) == (app, StepView::Stay),
{
}

/// While something lies on top of the dashboard, no key changes the rows shown,
/// the filter, the scope or the marked row, and none acts on a repository.
pub proof fn law_keys_stop_at_what_lies_on_top(app: AppView, key: KeyEvent)
    requires
        app.action_popup is Some || app.picker is Some || app.show_help,
    ensures
        ({
            let (now, step) = pressed(app, key);
            &&& now.rows == app.rows
            &&& now.matches == app.matches
            &&& now.cursor == app.cursor
            &&& now.filter == app.filter
            &&& now.mine_only == app.mine_only
            &&& now.mode == app.mode
            &&& !(step is Act) && !(step is Yank) && !(step is OpenHome) && !(step is Fetch)
            &&& step matches StepView::Exit(chosen) ==> chosen is None
        }),
{
}

/// A picker that is loading takes no key but those that close it and Ctrl-C.
pub proof fn law_loading_picker_waits(app: AppView, key: KeyEvent)
    requires
        app.action_popup is None,
        app.picker matches Some(p) && p.state is Loading,
        !key.interrupts(),
        key.code != KeyCode::Esc,
        key.code != KeyCode::Char('q'),
    ensures
        pressed(app, key) == (app, StepView::Stay),
{
}

/// The row that is chosen on leaving is one of those shown.
pub proof fn law_chosen_row_is_shown(app: AppView, key: KeyEvent)
    requires
        app.wf(),
        pressed(app, key).1 matches StepView::Exit(Some(_)),
    ensures
        ({
            let i = (pressed(app, key).1->Exit_0)->0;
            &&& i < app.rows.len()
            &&& app.matches.contains(i)
            &&& app.in_scope(app.rows[i as int])
        }),
{
    let quiet = AppView { status_message: None, ..app };
    let i = (pressed(app, key).1->Exit_0)->0;
    assert(quiet.marked() == app.marked());
    assert(app.matches[app.cursor as int] == i);
    law_shown_rows_are_in_scope(app);
}

/// Where only the user's own rows are wanted, only those are shown.
pub proof fn law_shown_rows_are_in_scope(app: AppView)
    requires
        app.wf(),
    ensures
        forall|k: int|
            0 <= k < app.matches.len() ==> #[trigger] app.matches[k] < app.rows.len()
                && app.in_scope(app.rows[app.matches[k] as int]),
{
    law_ranking(app.scores());
    assert forall|k: int| 0 <= k < app.matches.len() implies #[trigger] app.matches[k]
        < app.rows.len() && app.in_scope(app.rows[app.matches[k] as int]) by {
        assert(app.scores()[app.matches[k] as int] is Some);
    }
}

/// Without a filter every row in scope is shown, in shelf order.
pub proof fn law_no_filter_keeps_shelf_order(app: AppView)
    requires
        app.wf(),
        app.filter.len() == 0,
    ensures
        forall|a: int, b: int|
            0 <= a < b < app.matches.len() ==> #[trigger] app.matches[a] < #[trigger] app.matches[b],
        forall|i: int|
            0 <= i < app.rows.len() && #[trigger] app.in_scope(app.rows[i])
                ==> app.matches.contains(i as usize),
{
    law_ranking(app.scores());
    let scores = app.scores();
    assert forall|a: int, b: int| 0 <= a < b < app.matches.len() implies #[trigger] app.matches[a]
        < #[trigger] app.matches[b] by {
        assert(scores[app.matches[a] as int] is Some);
        assert(scores[app.matches[b] as int] is Some);
    }
    assert forall|i: int|
        0 <= i < app.rows.len() && #[trigger] app.in_scope(
            app.rows[i],
        ) implies app.matches.contains(i as usize) by {
        assert(scores[i] is Some);
    }
}

/// Flipping the scope twice shows the same rows again.
pub proof fn law_toggling_twice_restores_the_rows(app: AppView)
    requires
        app.wf(),
    ensures
        app.toggled().toggled().matches == app.matches,
        app.toggled().toggled().mine_only == app.mine_only,
{
    if app.own_owners.len() > 0 {
        let once = app.toggled();
        let back = AppView { mine_only: !once.mine_only, ..once };
        assert(back.scores() =~= app.scores());
    }
}

/// Backspace takes back what was typed into the filter.
pub proof fn law_backspace_undoes_typing(app: AppView, c: char)
    requires
        app.wf(),
    ensures
        ({
            let typed = filter_pressed(app, KeyCode::Char(c));
            let back = filter_pressed(typed, KeyCode::Backspace);
            back.filter == app.filter && back.matches == app.matches
        }),
{
    let typed = filter_pressed(app, KeyCode::Char(c));
    assert(without_last(typed.filter) =~= app.filter);
    let back = AppView { filter: app.filter, ..typed };
    assert(back.scores() =~= app.scores());
}

/// A slug is its three parts with slashes between them, and neither the host
/// nor the owner holds a slash.
pub proof fn law_slug_parts(slug: Seq<char>)
    ensures
        slug_parts(slug) matches Some((host, owner, name)) ==> slug == host + seq!['/'] + owner
            + seq!['/'] + name && !host.contains('/') && !owner.contains('/'),
{
    if let Some((host, owner, name)) = slug_parts(slug) {
        let slash = |c: char| c == '/';
        let a = first_index(slug, slash);
        let rest = slug.skip(a + 1);
        lemma_first_index(slug, slash);
        lemma_first_index(rest, slash);
        let b = first_index(rest, slash);
        assert(slash(slug[a]));
        assert(slash(rest[b]));
        assert(slug =~= host + seq!['/'] + owner + seq!['/'] + name);
        assert forall|k: int| 0 <= k < host.len() implies host[k] != '/' by {
            assert(!slash(slug[k]));
        }
        assert forall|k: int| 0 <= k < owner.len() implies owner[k] != '/' by {
            assert(!slash(rest[k]));
        }
    }
}

/// Nothing lies on top of the dashboard, and it reads keys as commands.
pub open spec fn reads_commands(app: AppView) -> bool {
    app.mode == Mode::Normal && app.action_popup is None && app.picker is None && !app.show_help
}

/// A key that is pressed without the control key.
pub open spec fn press(code: KeyCode) -> KeyEvent {
    KeyEvent { code, control: false, release: false }
}

/// `q` and Esc leave without a row. Enter leaves with the row that is marked, and
/// without one only where none is shown.
pub proof fn law_keys_that_leave(app: AppView)
    requires
        app.wf(),
        reads_commands(app),
    ensures
        pressed(app, press(KeyCode::Char('q'))).1 == StepView::Exit(None),
        pressed(app, press(KeyCode::Esc)).1 == StepView::Exit(None),
        app.matches.len() > 0 ==> pressed(app, press(KeyCode::Enter)).1 == StepView::Exit(
            Some(app.matches[app.cursor as int]),
        ),
        app.matches.len() == 0 ==> pressed(app, press(KeyCode::Enter)).1 == StepView::Exit(None),
{
}

/// `j` and Down mark the next row, `k` and Up the one before, `g` the first and `G`
/// the last; at either end the mark stays. Nothing else is done, and no key but these
/// moves the mark while the same rows are shown.
pub proof fn law_keys_that_move(app: AppView)
    requires
        app.wf(),
        reads_commands(app),
    ensures
        ({
            let n = app.matches.len() as int;
            let at = app.cursor as int;
            let next = if at + 1 < n {
                at + 1
            } else {
                at
            };
            let before = if at > 0 {
                at - 1
            } else {
                0
            };
            let last = if n > 0 {
                n - 1
            } else {
                0
            };
            &&& moves_to(app, KeyCode::Char('j'), next)
            &&& moves_to(app, KeyCode::Down, next)
            &&& moves_to(app, KeyCode::Char('k'), before)
            &&& moves_to(app, KeyCode::Up, before)
            &&& moves_to(app, KeyCode::Char('g'), 0)
            &&& moves_to(app, KeyCode::Char('G'), last)
        }),
{
    law_ranking(app.scores());
}

/// A key marks the row at this place, takes the note on the last key away, and does
/// nothing else.
pub open spec fn moves_to(app: AppView, code: KeyCode, at: int) -> bool {
    let (now, step) = pressed(app, press(code));
    &&& step == StepView::Stay
    &&& now == (AppView { cursor: at as usize, status_message: None, ..app })
    &&& 0 <= at <= usize::MAX
}

/// `f` and `P` ask for a fetch and for a push in the marked row's checkout, `y` for
/// its slug to be copied, and `o` for its home page, which a repository without a
/// remote has not. Without a marked row they do nothing. Nothing but the note changes.
pub proof fn law_keys_that_act(app: AppView)
    requires
        app.wf(),
        reads_commands(app),
    ensures
        app.matches.len() == 0 ==> {
            &&& pressed(app, press(KeyCode::Char('f'))).1 == StepView::Stay
            &&& pressed(app, press(KeyCode::Char('P'))).1 == StepView::Stay
            &&& pressed(app, press(KeyCode::Char('y'))).1 == StepView::Stay
            &&& pressed(app, press(KeyCode::Char('o'))).1 == StepView::Stay
            &&& pressed(app, press(KeyCode::Char('i'))).1 == StepView::Stay
            &&& pressed(app, press(KeyCode::Char('p'))).1 == StepView::Stay
        },
        app.matches.len() > 0 ==> {
            let row = app.rows[app.matches[app.cursor as int] as int];
            &&& pressed(app, press(KeyCode::Char('f'))).1 == StepView::Act(
                (ActionKind::Fetch, row.slug, row.path),
            )
            &&& pressed(app, press(KeyCode::Char('P'))).1 == StepView::Act(
                (ActionKind::Push, row.slug, row.path),
            )
            &&& pressed(app, press(KeyCode::Char('y'))).1 == StepView::Yank(row.slug)
            &&& !occurs_at(row.slug, "local/"@, 0) ==> {
                let (now, step) = pressed(app, press(KeyCode::Char('o')));
                step == StepView::OpenHome("https://"@ + row.slug) && now.status_message is None
            }
            &&& occurs_at(row.slug, "local/"@, 0) ==> {
                let (now, step) = pressed(app, press(KeyCode::Char('o')));
                step == StepView::Stay && now.status_message is Some
            }
        },
        ({
            let quiet = AppView { status_message: None, ..app };
            &&& pressed(app, press(KeyCode::Char('f'))).0 == quiet
            &&& pressed(app, press(KeyCode::Char('P'))).0 == quiet
            &&& pressed(app, press(KeyCode::Char('y'))).0 == quiet
            &&& AppView {
                status_message: None,
                ..pressed(app, press(KeyCode::Char('o'))).0
            } == quiet
        }),
{
}

/// `i` opens the issues and `p` the pull requests of the marked row, over a dashboard
/// that stays as it is. On github.com they are asked for, by owner and name; of a
/// repository elsewhere there is only an error to show, which names the host.
pub proof fn law_keys_that_open_pickers(
    app: AppView,
    host: Seq<char>,
    owner: Seq<char>,
    name: Seq<char>,
)
    requires
        app.wf(),
        reads_commands(app),
        app.matches.len() > 0,
        !host.contains('/'),
        !owner.contains('/'),
        app.rows[app.matches[app.cursor as int] as int].slug == host + "/"@ + owner + "/"@ + name,
    ensures
        opens(app, KeyCode::Char('i'), PickerKind::Issues, host, owner, name),
        opens(app, KeyCode::Char('p'), PickerKind::Prs, host, owner, name),
{
    law_parts_of_a_slug(host, owner, name);
    let issues = PickerKind::Issues.title_text()
        + " are only available on github.com (this repo is on `"@;
    let prs = PickerKind::Prs.title_text()
        + " are only available on github.com (this repo is on `"@;
    lemma_stands_between(issues, host, "`)"@);
    lemma_stands_between(prs, host, "`)"@);
}

/// A key opens a picker of this kind for a repository of these parts.
pub open spec fn opens(
    app: AppView,
    code: KeyCode,
    kind: PickerKind,
    host: Seq<char>,
    owner: Seq<char>,
    name: Seq<char>,
) -> bool {
    let (now, step) = pressed(app, press(code));
    &&& now.picker is Some
    &&& now.picker->0.kind == kind
    &&& now.picker->0.repo_label == host + "/"@ + owner + "/"@ + name
    &&& AppView { picker: None, status_message: app.status_message, ..now } == app
    &&& now.status_message is None
    &&& if host == "github.com"@ {
        now.picker->0.state is Loading && step == StepView::Fetch((kind, owner, name))
    } else {
        &&& now.picker->0.state is Error && step == StepView::Stay
        &&& has(now.picker->0.state->Error_0, host)
    }
}

/// `/` turns to the filter, `?` and F1 show the help, `m` flips the scope; any other
/// key without a meaning only takes the note on the last key away.
pub proof fn law_keys_that_turn(app: AppView, code: KeyCode)
    requires
        app.wf(),
        reads_commands(app),
    ensures
        pressed(app, press(KeyCode::Char('/'))) == (
            AppView { mode: Mode::Filter, status_message: None, ..app },
            StepView::Stay,
        ),
        pressed(app, press(KeyCode::Char('?'))) == (
            AppView { show_help: true, status_message: None, ..app },
            StepView::Stay,
        ),
        pressed(app, press(KeyCode::F(1))) == (
            AppView { show_help: true, status_message: None, ..app },
            StepView::Stay,
        ),
        pressed(app, press(KeyCode::Char('m'))).1 == StepView::Stay,
        app.own_owners.len() > 0 ==> pressed(app, press(KeyCode::Char('m'))).0.mine_only
            == !app.mine_only,
        app.own_owners.len() == 0 ==> pressed(app, press(KeyCode::Char('m'))).0.matches
            == app.matches,
        code is Other || code is Backspace || (code is F && code->F_0 != 1) ==> pressed(
            app,
            press(code),
        ) == (AppView { status_message: None, ..app }, StepView::Stay),
{
}

/// In filter mode every character is typed, whatever it means otherwise; Backspace
/// takes the last one back. Enter turns back to the rows that the filter shows, Esc
/// to all of them. None of these leaves the dashboard.
pub proof fn law_keys_of_the_filter(app: AppView, c: char)
    requires
        app.wf(),
        app.mode == Mode::Filter,
        app.action_popup is None,
        app.picker is None,
        !app.show_help,
    ensures
        ({
            let (typed, step) = pressed(app, press(KeyCode::Char(c)));
            &&& step == StepView::Stay
            &&& typed.filter == app.filter.push(c)
            &&& typed.mode == Mode::Filter
            &&& typed.rows == app.rows
        }),
        ({
            let (now, step) = pressed(app, press(KeyCode::Backspace));
            &&& step == StepView::Stay
            &&& app.filter.len() > 0 ==> now.filter == app.filter.drop_last()
            &&& app.filter.len() == 0 ==> now.filter == app.filter
            &&& now.mode == Mode::Filter
        }),
        pressed(app, press(KeyCode::Enter)) == (
            AppView { mode: Mode::Normal, ..app },
            StepView::Stay,
        ),
        ({
            let (now, step) = pressed(app, press(KeyCode::Esc));
            &&& step == StepView::Stay
            &&& now.filter.len() == 0
            &&& now.mode == Mode::Normal
            &&& now.mine_only == app.mine_only
        }),
{
}

/// At a picker Esc and `q` close it and open nothing; Enter closes it and opens the
/// page of the item that is marked. `j`, Down, `k` and Up move the mark; any other
/// character is typed into its filter, and Backspace takes the last one back.
pub proof fn law_keys_of_a_picker(app: AppView, c: char)
    requires
        app.action_popup is None,
        app.picker is Some,
        app.picker->0.state is Loaded,
    ensures
        ({
            let closed = AppView { picker: None, ..app };
            let p = app.picker->0;
            &&& pressed(app, press(KeyCode::Esc)) == (closed, StepView::Stay)
            &&& pressed(app, press(KeyCode::Char('q'))) == (closed, StepView::Stay)
            &&& pressed(app, press(KeyCode::Enter)).0 == closed
            &&& p.state.marked() is Some ==> pressed(app, press(KeyCode::Enter)).1
                == StepView::OpenItem(p.state.marked()->0.html_url)
            &&& p.state.marked() is None ==> pressed(app, press(KeyCode::Enter)).1
                == StepView::Stay
            &&& picker_becomes(app, KeyCode::Char('j'), p.state.down())
            &&& picker_becomes(app, KeyCode::Down, p.state.down())
            &&& picker_becomes(app, KeyCode::Char('k'), p.state.up())
            &&& picker_becomes(app, KeyCode::Up, p.state.up())
            &&& c != 'j' && c != 'k' && c != 'q' ==> picker_becomes(
                app,
                KeyCode::Char(c),
                p.state.filtered_by(p.state->filter.push(c)),
            )
            &&& p.state->filter.len() > 0 ==> picker_becomes(
                app,
                KeyCode::Backspace,
                p.state.filtered_by(p.state->filter.drop_last()),
            )
        }),
{
}

/// A key changes the state of the picker to this one, and nothing else.
pub open spec fn picker_becomes(app: AppView, code: KeyCode, state: PickerStateView) -> bool {
    let (now, step) = pressed(app, press(code));
    &&& step == StepView::Stay
    &&& now.picker is Some && now.picker->0.state == state
    &&& now.picker->0.kind == app.picker->0.kind
    &&& now.picker->0.repo_label == app.picker->0.repo_label
    &&& AppView { picker: app.picker, ..now } == app
}

/// Any key takes the result of an action away. The help stays until Esc, `q`, `?` or
/// F1 is pressed. What lies below either stays as it is.
pub proof fn law_keys_that_uncover(app: AppView, code: KeyCode)
    ensures
        app.action_popup is Some ==> pressed(app, press(code)) == (
            AppView { action_popup: None, ..app },
            StepView::Stay,
        ),
        app.action_popup is None && app.picker is None && app.show_help ==> {
            let (now, step) = pressed(app, press(code));
            &&& step == StepView::Stay
            &&& now.show_help == !(code == KeyCode::Esc || code == KeyCode::Char('q') || code
                == KeyCode::Char('?') || code == KeyCode::F(1))
            &&& AppView { show_help: true, ..now } == app
        },
{
}

/// Ctrl-C is the letter with the control key, in lower case, and nothing else.
pub proof fn law_interrupt(key: KeyEvent)
    ensures
        key.interrupts() == (key.control && key.code is Char && key.code->Char_0 == 'c'),
{
}

/// A host, an owner and a name with slashes between them are a slug of these parts.
/// The name may hold slashes; what has fewer than two of them is no slug.
pub proof fn law_parts_of_a_slug(host: Seq<char>, owner: Seq<char>, name: Seq<char>)
    requires
        !host.contains('/'),
        !owner.contains('/'),
    ensures
        slug_parts(host + "/"@ + owner + "/"@ + name) == Some((host, owner, name)),
        slug_parts(host + "/"@ + owner) is None,
        slug_parts(host) is None,
{
    reveal_strlit("/");
    let slash = |c: char| c == '/';
    let slug = host + "/"@ + owner + "/"@ + name;
    let n = host.len() as int;
    let m = owner.len() as int;
    assert forall|k: int| 0 <= k < n implies !slash(#[trigger] host[k]) by {
        assert(host.contains(host[k]));
    }
    assert forall|k: int| 0 <= k < m implies !slash(#[trigger] owner[k]) by {
        assert(owner.contains(owner[k]));
    }
    assert forall|k: int| 0 <= k < n implies !slash(#[trigger] slug[k]) by {
        assert(slug[k] == host[k]);
    }
    assert(slug[n] == '/');
    lemma_is_first_index(slug, slash, n);
    let rest = slug.skip(n + 1);
    assert(rest =~= owner + "/"@ + name);
    assert forall|k: int| 0 <= k < m implies !slash(#[trigger] rest[k]) by {
        assert(rest[k] == owner[k]);
    }
    assert(rest[m] == '/');
    lemma_is_first_index(rest, slash, m);
    assert(slug.take(n) =~= host);
    assert(rest.take(m) =~= owner);
    assert(rest.skip(m + 1) =~= name);
    let two = host + "/"@ + owner;
    assert forall|k: int| 0 <= k < n implies !slash(#[trigger] two[k]) by {
        assert(two[k] == host[k]);
    }
    assert(two[n] == '/');
    lemma_is_first_index(two, slash, n);
    assert(two.skip(n + 1) =~= owner);
    lemma_is_first_index(owner, slash, m);
    lemma_is_first_index(host, slash, n);
}

/// A repository is without a remote exactly when its host is `local`.
pub proof fn law_local_slugs(host: Seq<char>, rest: Seq<char>)
    requires
        !host.contains('/'),
    ensures
        is_local(host + "/"@ + rest) == (host == "local"@),
{
    reveal_strlit("/");
    reveal_strlit("local/");
    reveal_strlit("local");
    let slug = host + "/"@ + rest;
    let l = "local"@;
    let ls = "local/"@;
    assert(l[0] == 'l' && l[1] == 'o' && l[2] == 'c' && l[3] == 'a' && l[4] == 'l');
    assert(ls[0] == 'l' && ls[1] == 'o' && ls[2] == 'c' && ls[3] == 'a' && ls[4] == 'l' && ls[5]
        == '/');
    if host == l {
        assert(slug.subrange(0, 6) =~= ls);
    }
    if is_local(slug) {
        let head = slug.subrange(0, 6);
        assert(head[0] == ls[0] && head[1] == ls[1] && head[2] == ls[2] && head[3] == ls[3]
            && head[4] == ls[4] && head[5] == ls[5]);
        if host.len() > 5 {
            assert(host[5] == slug[5]);
            assert(host.contains(host[5]));
        }
        if host.len() < 5 {
            assert(slug[host.len() as int] == '/');
        }
        assert(host =~= l);
    }
}

} // verus!
