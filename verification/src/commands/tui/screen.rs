//! What the dashboard shows: its lines, piece by piece.
use vstd::prelude::*;
use vstd::string::*;

use crate::commands::tui::app::{App, AppView, Mode};
use crate::commands::tui::rank::law_ranking;
use crate::commands::tui::rows::DashRowView;
use crate::gh::{CiStatus, GhSnapshot, GhSnapshotView};
use crate::git_status::{GitStatusSnapshot, GitStatusView};
use crate::seqs::{opt_ref_view, views};
use crate::text::{
    chars_of, decimal, decimal_of, is_number, law_decimal_reads_back, number_read, same_text,
};

verus! {

/// A colour of the palette, by its role.
#[derive(Debug, Clone, Copy, PartialEq, Eq, Structural)]
pub enum Color {
    Mantle,
    Base,
    Surface0,
    Surface1,
    Overlay,
    Subtext,
    Text,
    Lavender,
    Sky,
    Teal,
    Green,
    Yellow,
    Peach,
    Red,
    Mauve,
    Pink,
}

impl Color {
    /// The colour's red, green and blue.
    pub open spec fn parts(self) -> (u8, u8, u8) {
        match self {
            Color::Mantle => (0x18, 0x18, 0x25),
            Color::Base => (0x1e, 0x1e, 0x2e),
            Color::Surface0 => (0x31, 0x32, 0x44),
            Color::Surface1 => (0x45, 0x47, 0x5a),
            Color::Overlay => (0x6c, 0x70, 0x86),
            Color::Subtext => (0xba, 0xc2, 0xde),
            Color::Text => (0xcd, 0xd6, 0xf4),
            Color::Lavender => (0xb4, 0xbe, 0xfe),
            Color::Sky => (0x89, 0xdc, 0xeb),
            Color::Teal => (0x94, 0xe2, 0xd5),
            Color::Green => (0xa6, 0xe3, 0xa1),
            Color::Yellow => (0xf9, 0xe2, 0xaf),
            Color::Peach => (0xfa, 0xb3, 0x87),
            Color::Red => (0xf3, 0x8b, 0xa8),
            Color::Mauve => (0xcb, 0xa6, 0xf7),
            Color::Pink => (0xf5, 0xc2, 0xe7),
        }
    }

    /// The colour's red, green and blue.
    pub fn rgb(self) -> (r: (u8, u8, u8))
        ensures
            r == self.parts(),
    {
        match self {
            Color::Mantle => (0x18, 0x18, 0x25),
            Color::Base => (0x1e, 0x1e, 0x2e),
            Color::Surface0 => (0x31, 0x32, 0x44),
            Color::Surface1 => (0x45, 0x47, 0x5a),
            Color::Overlay => (0x6c, 0x70, 0x86),
            Color::Subtext => (0xba, 0xc2, 0xde),
            Color::Text => (0xcd, 0xd6, 0xf4),
            Color::Lavender => (0xb4, 0xbe, 0xfe),
            Color::Sky => (0x89, 0xdc, 0xeb),
            Color::Teal => (0x94, 0xe2, 0xd5),
            Color::Green => (0xa6, 0xe3, 0xa1),
            Color::Yellow => (0xf9, 0xe2, 0xaf),
            Color::Peach => (0xfa, 0xb3, 0x87),
            Color::Red => (0xf3, 0x8b, 0xa8),
            Color::Mauve => (0xcb, 0xa6, 0xf7),
            Color::Pink => (0xf5, 0xc2, 0xe7),
        }
    }
}

/// A piece of a line.
#[derive(Debug)]
pub struct Span {
    pub text: String,
    /// `None` leaves the colour of what is below.
    pub color: Option<Color>,
    pub bold: bool,
}

/// The contents of a [`Span`].
#[verifier::ext_equal]
pub struct SpanView {
    pub text: Seq<char>,
    pub color: Option<Color>,
    pub bold: bool,
}

impl View for Span {
    type V = SpanView;

    open spec fn view(&self) -> SpanView {
        SpanView { text: self.text@, color: self.color, bold: self.bold }
    }
}

/// A piece in the colour of what is below.
pub open spec fn raw_of(text: Seq<char>) -> SpanView {
    SpanView { text, color: None, bold: false }
}

/// A piece in a colour.
pub open spec fn plain_of(text: Seq<char>, color: Color) -> SpanView {
    SpanView { text, color: Some(color), bold: false }
}

/// A bold piece in a colour.
pub open spec fn bold_of(text: Seq<char>, color: Color) -> SpanView {
    SpanView { text, color: Some(color), bold: true }
}

/// A piece in the colour of what is below.
pub(crate) fn raw(text: &str) -> (r: Span)
    ensures
        r@ == raw_of(text@),
{
    Span { text: text.to_owned(), color: None, bold: false }
}

/// A piece in a colour.
pub(crate) fn plain(text: &str, color: Color) -> (r: Span)
    ensures
        r@ == plain_of(text@, color),
{
    Span { text: text.to_owned(), color: Some(color), bold: false }
}

/// A bold piece in a colour.
pub(crate) fn bold(text: &str, color: Color) -> (r: Span)
    ensures
        r@ == bold_of(text@, color),
{
    Span { text: text.to_owned(), color: Some(color), bold: true }
}

/// Adds a piece to a line.
pub(crate) fn push_span(line: &mut Vec<Span>, span: Span)
    ensures
        views(final(line)@) == views(old(line)@).push(span@),
{
    let ghost was = views(line@);
    let ghost s = span@;
    line.push(span);
    assert(views(line@) =~= was.push(s));
}

/// The pieces of lines.
pub open spec fn lines_of(lines: Seq<Vec<Span>>) -> Seq<Seq<SpanView>> {
    lines.map_values(|l: Vec<Span>| views(l@))
}

/// Adds a line.
pub(crate) fn push_line(lines: &mut Vec<Vec<Span>>, line: Vec<Span>)
    ensures
        lines_of(final(lines)@) == lines_of(old(lines)@).push(views(line@)),
{
    let ghost was = lines_of(lines@);
    let ghost l = views(line@);
    lines.push(line);
    assert(lines_of(lines@) =~= was.push(l));
}

/// A line of one piece.
pub(crate) fn line1(a: Span) -> (r: Vec<Span>)
    ensures
        views(r@) == seq![a@],
{
    let ghost want = seq![a@];
    let r = vec![a];
    assert(views(r@) =~= want);
    r
}

/// A line of two pieces.
pub(crate) fn line2(a: Span, b: Span) -> (r: Vec<Span>)
    ensures
        views(r@) == seq![a@, b@],
{
    let ghost want = seq![a@, b@];
    let r = vec![a, b];
    assert(views(r@) =~= want);
    r
}

/// A line with nothing on it.
pub(crate) fn blank() -> (r: Vec<Span>)
    ensures
        views(r@) == Seq::<SpanView>::empty(),
{
    let r: Vec<Span> = Vec::new();
    assert(views(r@) =~= Seq::empty());
    r
}

/// The header: the name and version, how many rows are shown of how many, the
/// scope where owners are configured, and the filter where there is one.
pub open spec fn header(app: AppView, version: Seq<char>) -> Seq<SpanView> {
    let counts = seq![
        plain_of(" ✦ "@, Color::Mauve),
        bold_of("shoka"@, Color::Lavender),
        plain_of(" v"@ + version, Color::Overlay),
        plain_of("  📚 "@, Color::Peach),
        bold_of(decimal(app.matches.len()), Color::Green),
        plain_of(" / "@ + decimal(app.rows.len()) + " repo(s)"@, Color::Subtext),
    ];
    let scope = if app.own_owners.len() == 0 {
        Seq::empty()
    } else if app.mine_only {
        seq![plain_of("  ◇ "@, Color::Overlay), bold_of("mine"@, Color::Teal)]
    } else {
        seq![plain_of("  ◇ "@, Color::Overlay), bold_of("all"@, Color::Peach)]
    };
    let filter = if app.filter.len() == 0 {
        Seq::empty()
    } else {
        seq![bold_of("  ◇ /"@, Color::Peach), bold_of(app.filter, Color::Yellow)]
    };
    counts + scope + filter
}

/// The header line.
pub fn header_spans(app: &App, version: &str) -> (r: Vec<Span>)
    ensures
        views(r@) == header(app@, version@),
{
    let shown = decimal_of(app.matches.len() as u64);
    let total = " / ".to_owned().concat(decimal_of(app.rows.len() as u64).as_str()).concat(
        " repo(s)",
    );
    let mut out: Vec<Span> = vec![
        plain(" ✦ ", Color::Mauve),
        bold("shoka", Color::Lavender),
        plain(" v".to_owned().concat(version).as_str(), Color::Overlay),
        plain("  📚 ", Color::Peach),
        bold(shown.as_str(), Color::Green),
        plain(total.as_str(), Color::Subtext),
    ];
    if app.own_owners.len() > 0 {
        push_span(&mut out, plain("  ◇ ", Color::Overlay));
        if app.mine_only {
            push_span(&mut out, bold("mine", Color::Teal));
        } else {
            push_span(&mut out, bold("all", Color::Peach));
        }
    }
    if app.filter.as_str().unicode_len() > 0 {
        push_span(&mut out, bold("  ◇ /", Color::Peach));
        push_span(&mut out, bold(app.filter.as_str(), Color::Yellow));
    }
    assert(views(out@) =~= header(app@, version@));
    out
}

/// The column of open pull requests: `-` where the number is not known, `99+`
/// from a hundred on.
pub open spec fn pr_text(snap: Option<GhSnapshotView>) -> Seq<char> {
    match snap {
        Some(s) => match s.open_pr_count {
            Some(n) => if n >= 100 {
                "99+"@
            } else {
                decimal(n as nat)
            },
            None => "-"@,
        },
        None => "-"@,
    }
}

/// The column of the latest workflow run: `-` where it is not known.
pub open spec fn ci_text(snap: Option<GhSnapshotView>) -> Seq<char> {
    match snap {
        Some(s) => match s.ci_status {
            Some(CiStatus::Success) => "✓"@,
            Some(CiStatus::Failure) => "✗"@,
            Some(CiStatus::Pending) => "◐"@,
            Some(CiStatus::Skipped) => "○"@,
            Some(CiStatus::Other) => "!"@,
            None => "-"@,
        },
        None => "-"@,
    }
}

/// The two GitHub columns of a row.
pub fn gh_cells(snap: Option<&GhSnapshot>) -> (r: (String, String))
    ensures
        r.0@ == pr_text(opt_ref_view(snap)),
        r.1@ == ci_text(opt_ref_view(snap)),
{
    match snap {
        None => ("-".to_owned(), "-".to_owned()),
        Some(s) => {
            let pr = match s.open_pr_count {
                Some(n) => {
                    if n >= 100 {
                        "99+".to_owned()
                    } else {
                        decimal_of(n as u64)
                    }
                },
                None => "-".to_owned(),
            };
            let ci = match s.ci_status {
                Some(CiStatus::Success) => "✓",
                Some(CiStatus::Failure) => "✗",
                Some(CiStatus::Pending) => "◐",
                Some(CiStatus::Skipped) => "○",
                Some(CiStatus::Other) => "!",
                None => "-",
            };
            (pr, ci.to_owned())
        },
    }
}

/// The bar for a level of activity, from none to the highest.
pub open spec fn bar(level: int) -> char {
    if level <= 0 {
        '▁'
    } else if level == 1 {
        '▂'
    } else if level == 2 {
        '▃'
    } else if level == 3 {
        '▄'
    } else if level == 4 {
        '▅'
    } else if level == 5 {
        '▆'
    } else if level == 6 {
        '▇'
    } else {
        '█'
    }
}

/// The bar for a level of activity.
fn bar_for(level: u64) -> (r: char)
    ensures
        r == bar(level as int),
{
    if level == 0 {
        '▁'
    } else if level == 1 {
        '▂'
    } else if level == 2 {
        '▃'
    } else if level == 3 {
        '▄'
    } else if level == 4 {
        '▅'
    } else if level == 5 {
        '▆'
    } else if level == 6 {
        '▇'
    } else {
        '█'
    }
}

/// The commits of the busiest week.
pub open spec fn peak(weeks: Seq<u32>) -> u32
    decreases weeks.len(),
{
    if weeks.len() == 0 {
        0
    } else if weeks.last() > peak(weeks.drop_last()) {
        weeks.last()
    } else {
        peak(weeks.drop_last())
    }
}

/// The level of a week against the busiest one: none where no week has a
/// commit, and seven for the busiest.
pub open spec fn level(commits: u32, top: u32) -> int {
    if top == 0 {
        0
    } else {
        (commits * 7) / top as int
    }
}

/// The activity column: `-` where it was not captured, else one bar for each
/// week, oldest first, against the row's own busiest week.
pub open spec fn activity_text(gh: Option<GhSnapshotView>) -> Seq<char> {
    match gh {
        Some(s) => match s.weekly_commits {
            Some(weeks) => weeks.map_values(|n: u32| bar(level(n, peak(weeks)))),
            None => "-"@,
        },
        None => "-"@,
    }
}

/// The commits of the busiest week.
fn busiest(weeks: &Vec<u32>) -> (r: u32)
    ensures
        r == peak(weeks@),
{
    let mut top: u32 = 0;
    let mut i: usize = 0;
    while i < weeks.len()
        invariant
            i <= weeks@.len(),
            top == peak(weeks@.take(i as int)),
        decreases weeks@.len() - i,
    {
        assert(weeks@.take(i + 1).drop_last() =~= weeks@.take(i as int));
        if weeks[i] > top {
            top = weeks[i];
        }
        i = i + 1;
    }
    assert(weeks@.take(i as int) =~= weeks@);
    top
}

/// The activity column of a row.
pub fn activity_cell(snap: Option<&GhSnapshot>) -> (r: String)
    ensures
        r@ == activity_text(opt_ref_view(snap)),
{
    match snap {
        None => "-".to_owned(),
        Some(s) => match &s.weekly_commits {
            None => "-".to_owned(),
            Some(weeks) => {
                let top: u32 = busiest(weeks);
                let ghost f = |n: u32| bar(level(n, peak(weeks@)));
                let mut out = String::new();
                let mut i: usize = 0;
                assert(out@ =~= weeks@.take(0).map_values(f));
                while i < weeks.len()
                    invariant
                        top == peak(weeks@),
                        f == (|n: u32| bar(level(n, peak(weeks@)))),
                        i <= weeks@.len(),
                        out@ == weeks@.take(i as int).map_values(f),
                    decreases weeks@.len() - i,
                {
                    let n: u32 = weeks[i];
                    let height: u64 = if top == 0 {
                        0
                    } else {
                        (n as u64 * 7) / top as u64
                    };
                    assert(height == level(n, top));
                    let ghost was = out@;
                    out.push(bar_for(height));
                    assert(out@ =~= was.push(f(n)));
                    assert(weeks@.take(i + 1) =~= weeks@.take(i as int).push(n));
                    assert(weeks@.take(i + 1).map_values(f) =~= was.push(f(n)));
                    i = i + 1;
                }
                assert(weeks@.take(i as int) =~= weeks@);
                out
            },
        },
    }
}

/// No week has more commits than the busiest, which is one of them.
proof fn lemma_peak(weeks: Seq<u32>)
    ensures
        forall|i: int| 0 <= i < weeks.len() ==> #[trigger] weeks[i] <= peak(weeks),
        weeks.len() > 0 ==> weeks.contains(peak(weeks)),
    decreases weeks.len(),
{
    if weeks.len() > 0 {
        let front = weeks.drop_last();
        lemma_peak(front);
        assert forall|i: int| 0 <= i < weeks.len() implies #[trigger] weeks[i] <= peak(weeks) by {
            if i < front.len() {
                assert(front[i] == weeks[i]);
            }
        }
        assert(weeks[weeks.len() - 1] == weeks.last());
        if peak(weeks) != weeks.last() {
            assert(front.contains(peak(front))) by {
                if front.len() == 0 {
                    assert(peak(front) == 0);
                    assert(weeks.last() == 0);
                }
            }
            let k = choose|k: int| 0 <= k < front.len() && front[k] == peak(front);
            assert(weeks[k] == peak(weeks));
        }
    }
}

/// The bars are relative to the row's own busiest week: where no week has a
/// commit they all are the lowest, the busiest week has the highest, and a week
/// with more commits never has a lower bar than one with fewer.
pub proof fn law_bars_are_relative(weeks: Seq<u32>, i: int, j: int)
    requires
        0 <= i < weeks.len(),
        0 <= j < weeks.len(),
    ensures
        peak(weeks) == 0 ==> weeks[i] == 0 && bar(level(weeks[i], peak(weeks))) == '▁',
        peak(weeks) > 0 && weeks[i] == peak(weeks) ==> bar(level(weeks[i], peak(weeks))) == '█',
        weeks[i] <= weeks[j] ==> 0 <= level(weeks[i], peak(weeks)) <= level(weeks[j], peak(weeks))
            <= 7,
        weeks.contains(peak(weeks)),
{
    lemma_peak(weeks);
    let top = peak(weeks) as int;
    let a = weeks[i] as int;
    let b = weeks[j] as int;
    if top > 0 {
        assert(0 <= (a * 7) / top) by (nonlinear_arith)
            requires
                a >= 0,
                top > 0,
        ;
        assert((b * 7) / top <= 7) by (nonlinear_arith)
            requires
                0 <= b <= top,
                top > 0,
        ;
        assert(a == top ==> (a * 7) / top == 7) by (nonlinear_arith)
            requires
                top > 0,
        ;
        assert(a <= b ==> (a * 7) / top <= (b * 7) / top) by (nonlinear_arith)
            requires
                0 <= a,
                0 <= b,
                top > 0,
        ;
    }
}

/// The branch column: `?` where nothing was captured, `-` without a branch.
pub open spec fn branch_text(status: Option<GitStatusView>) -> Seq<char> {
    match status {
        None => "?"@,
        Some(s) => match s.branch {
            Some(b) => b,
            None => "-"@,
        },
    }
}

/// The column of commits ahead and behind: `?` where nothing was captured, `=`
/// in sync, `-` where either number is not known.
pub open spec fn ahead_behind_text(status: Option<GitStatusView>) -> Seq<char> {
    match status {
        None => "?"@,
        Some(s) => match (s.ahead, s.behind) {
            (Some(a), Some(b)) => if a == 0 && b == 0 {
                "="@
            } else if b == 0 {
                "↑"@ + decimal(a as nat)
            } else if a == 0 {
                "↓"@ + decimal(b as nat)
            } else {
                "↑"@ + decimal(a as nat) + " ↓"@ + decimal(b as nat)
            },
            _ => "-"@,
        },
    }
}

/// The column of uncommitted changes: `?` where nothing was captured.
pub open spec fn dirty_text(status: Option<GitStatusView>) -> Seq<char> {
    match status {
        None => "?"@,
        Some(s) => if s.dirty {
            "●"@
        } else {
            "✓"@
        },
    }
}

/// The three columns of a row's local state: branch, commits ahead and behind,
/// uncommitted changes.
pub fn status_cells(status: Option<&GitStatusSnapshot>) -> (r: (String, String, String))
    ensures
        r.0@ == branch_text(opt_ref_view(status)),
        r.1@ == ahead_behind_text(opt_ref_view(status)),
        r.2@ == dirty_text(opt_ref_view(status)),
{
    match status {
        None => ("?".to_owned(), "?".to_owned(), "?".to_owned()),
        Some(s) => {
            let branch = match &s.branch {
                Some(b) => b.clone(),
                None => "-".to_owned(),
            };
            let ahead_behind = match (s.ahead, s.behind) {
                (Some(a), Some(b)) => {
                    if a == 0 && b == 0 {
                        "=".to_owned()
                    } else if b == 0 {
                        "↑".to_owned().concat(decimal_of(a as u64).as_str())
                    } else if a == 0 {
                        "↓".to_owned().concat(decimal_of(b as u64).as_str())
                    } else {
                        "↑".to_owned().concat(decimal_of(a as u64).as_str()).concat(
                            " ↓",
                        ).concat(decimal_of(b as u64).as_str())
                    }
                },
                _ => "-".to_owned(),
            };
            let dirty = if s.dirty {
                "●".to_owned()
            } else {
                "✓".to_owned()
            };
            (branch, ahead_behind, dirty)
        },
    }
}

/// The colour of the column of commits ahead and behind, by its text: green
/// where there is something to push, yellow to pull, mauve for both.
pub open spec fn ahead_behind_color(s: Seq<char>) -> Color {
    if s.len() > 0 && s[0] == '↑' {
        if s.contains('↓') {
            Color::Mauve
        } else {
            Color::Green
        }
    } else if s.len() > 0 && s[0] == '↓' {
        Color::Yellow
    } else {
        Color::Overlay
    }
}

/// The column of commits ahead and behind, in its colour.
pub fn style_ahead_behind(s: &str) -> (r: Span)
    ensures
        r@ == plain_of(s@, ahead_behind_color(s@)),
{
    let v = chars_of(s);
    if v.len() == 0 {
        return plain(s, Color::Overlay);
    }
    let color = if v[0] == '↑' {
        let mut i: usize = 0;
        while i < v.len() && v[i] != '↓'
            invariant
                i <= v@.len(),
                forall|k: int| 0 <= k < i ==> v@[k] != '↓',
            decreases v@.len() - i,
        {
            i = i + 1;
        }
        if i < v.len() {
            assert(v@.contains('↓'));
            Color::Mauve
        } else {
            Color::Green
        }
    } else if v[0] == '↓' {
        Color::Yellow
    } else {
        Color::Overlay
    };
    plain(s, color)
}

/// The colour of the column of uncommitted changes, by its text.
pub open spec fn dirty_color(s: Seq<char>) -> Color {
    if s == "✓"@ {
        Color::Green
    } else if s == "●"@ {
        Color::Peach
    } else {
        Color::Overlay
    }
}

/// The column of uncommitted changes, in its colour.
pub fn style_dirty(s: &str) -> (r: Span)
    ensures
        r@ == plain_of(s@, dirty_color(s@)),
{
    let color = if same_text(s, "✓") {
        Color::Green
    } else if same_text(s, "●") {
        Color::Peach
    } else {
        Color::Overlay
    };
    plain(s, color)
}

/// The column of open pull requests, in its colour: it stands out where there
/// are any.
pub open spec fn pr_span(s: Seq<char>) -> SpanView {
    if s == "0"@ || s == "-"@ {
        plain_of(s, Color::Overlay)
    } else {
        bold_of(s, Color::Pink)
    }
}

/// The column of open pull requests, in its colour.
pub fn style_pr(s: &str) -> (r: Span)
    ensures
        r@ == pr_span(s@),
{
    if same_text(s, "0") || same_text(s, "-") {
        plain(s, Color::Overlay)
    } else {
        bold(s, Color::Pink)
    }
}

/// The colour of the column of the latest workflow run, by its text.
pub open spec fn ci_color(s: Seq<char>) -> Color {
    if s == "✓"@ {
        Color::Green
    } else if s == "✗"@ || s == "!"@ {
        Color::Red
    } else if s == "◐"@ {
        Color::Yellow
    } else {
        Color::Overlay
    }
}

/// The column of the latest workflow run, in its colour.
pub fn style_ci(s: &str) -> (r: Span)
    ensures
        r@ == plain_of(s@, ci_color(s@)),
{
    let color = if same_text(s, "✓") {
        Color::Green
    } else if same_text(s, "✗") || same_text(s, "!") {
        Color::Red
    } else if same_text(s, "◐") {
        Color::Yellow
    } else {
        Color::Overlay
    };
    plain(s, color)
}

/// The colour of the activity column, by its text: it recedes where nothing was
/// captured.
pub open spec fn activity_color(s: Seq<char>) -> Color {
    if s == "-"@ {
        Color::Overlay
    } else {
        Color::Green
    }
}

/// The activity column, in its colour.
pub fn style_activity(s: &str) -> (r: Span)
    ensures
        r@ == plain_of(s@, activity_color(s@)),
{
    let color = if same_text(s, "-") {
        Color::Overlay
    } else {
        Color::Green
    };
    plain(s, color)
}

/// The columns of a row: repository, branch, commits ahead and behind, changes,
/// pull requests, workflow run, activity, path and tags.
pub open spec fn cells_of(row: DashRowView) -> Seq<Seq<SpanView>> {
    let ahead_behind = ahead_behind_text(row.status);
    let dirty = dirty_text(row.status);
    let ci = ci_text(row.gh);
    let activity = activity_text(row.gh);
    seq![
        seq![raw_of(" "@), plain_of(row.slug, Color::Text)],
        seq![plain_of(branch_text(row.status), Color::Sky)],
        seq![plain_of(ahead_behind, ahead_behind_color(ahead_behind))],
        seq![plain_of(dirty, dirty_color(dirty))],
        seq![pr_span(pr_text(row.gh))],
        seq![plain_of(ci, ci_color(ci))],
        seq![plain_of(activity, activity_color(activity))],
        seq![plain_of(row.path, Color::Overlay)],
        seq![plain_of(row.tags_display, Color::Teal)],
    ]
}

/// A row of the table, and the colour behind it.
#[derive(Debug)]
pub struct TableRow {
    pub cells: Vec<Vec<Span>>,
    pub background: Color,
}

/// The colour behind a row: every other one is darker.
pub open spec fn stripe(position: int) -> Color {
    if position % 2 == 0 {
        Color::Base
    } else {
        Color::Mantle
    }
}

/// What stands at a position of the table.
pub fn table_row(app: &App, position: usize) -> (r: TableRow)
    requires
        app@.wf(),
        position < app@.matches.len(),
    ensures
        lines_of(r.cells@) == cells_of(app@.rows[app@.matches[position as int] as int]),
        r.background == stripe(position as int),
{
    proof {
        law_ranking(app@.scores());
    }
    let row = &app.rows[app.matches[position]];
    assert(app@.rows[app@.matches[position as int] as int] == row@);
    let status = match &row.status {
        Some(s) => Some(s),
        None => None,
    };
    let gh = match &row.gh {
        Some(g) => Some(g),
        None => None,
    };
    let (branch, ahead_behind, dirty) = status_cells(status);
    let (pr, ci) = gh_cells(gh);
    let activity = activity_cell(gh);
    let mut cells: Vec<Vec<Span>> = Vec::new();
    assert(lines_of(cells@) =~= Seq::empty());
    push_line(&mut cells, line2(raw(" "), plain(row.slug.as_str(), Color::Text)));
    push_line(&mut cells, line1(plain(branch.as_str(), Color::Sky)));
    push_line(&mut cells, line1(style_ahead_behind(ahead_behind.as_str())));
    push_line(&mut cells, line1(style_dirty(dirty.as_str())));
    push_line(&mut cells, line1(style_pr(pr.as_str())));
    push_line(&mut cells, line1(style_ci(ci.as_str())));
    push_line(&mut cells, line1(style_activity(activity.as_str())));
    push_line(&mut cells, line1(plain(row.path.as_str(), Color::Overlay)));
    push_line(&mut cells, line1(plain(row.tags_display.as_str(), Color::Teal)));
    assert(lines_of(cells@) =~= cells_of(row@));
    let background = if position % 2 == 0 {
        Color::Base
    } else {
        Color::Mantle
    };
    TableRow { cells, background }
}

/// The texts of key hints.
pub open spec fn hint_texts(pairs: Seq<(&'static str, &'static str)>) -> Seq<
    (Seq<char>, Seq<char>),
> {
    pairs.map_values(|p: (&'static str, &'static str)| (p.0@, p.1@))
}

/// Key hints: each key in brackets, then what it does.
pub open spec fn pills(pairs: Seq<(Seq<char>, Seq<char>)>) -> Seq<SpanView>
    decreases pairs.len(),
{
    if pairs.len() == 0 {
        Seq::empty()
    } else {
        pills(pairs.drop_last()) + seq![
            raw_of(" "@),
            bold_of("["@ + pairs.last().0 + "]"@, Color::Mauve),
            plain_of(pairs.last().1, Color::Subtext),
        ]
    }
}

/// Key hints: each key in brackets, then what it does.
pub fn footer_pills(pairs: &[(&'static str, &'static str)]) -> (r: Vec<Span>)
    ensures
        views(r@) == pills(hint_texts(pairs@)),
{
    let mut out: Vec<Span> = Vec::new();
    let ghost all = hint_texts(pairs@);
    assert(views(out@) =~= Seq::empty());
    assert(all.take(0) =~= Seq::empty());
    let mut i: usize = 0;
    while i < pairs.len()
        invariant
            i <= pairs@.len(),
            all == hint_texts(pairs@),
            views(out@) == pills(all.take(i as int)),
        decreases pairs@.len() - i,
    {
        let (key, label) = pairs[i];
        let ghost was = views(out@);
        push_span(&mut out, raw(" "));
        push_span(&mut out, bold("[".to_owned().concat(key).concat("]").as_str(), Color::Mauve));
        push_span(&mut out, plain(label, Color::Subtext));
        proof {
            let next = all.take(i + 1);
            assert(next.drop_last() =~= all.take(i as int));
            assert(next.last() == (key@, label@));
            assert(views(out@) =~= pills(next));
        }
        i = i + 1;
    }
    assert(all.take(i as int) =~= all);
    out
}

/// The hints in normal mode. The key that flips the scope is offered where
/// owners are configured, under what it would show.
pub open spec fn normal_hints(app: AppView) -> Seq<(Seq<char>, Seq<char>)> {
    let scope = if app.own_owners.len() == 0 {
        Seq::empty()
    } else if app.mine_only {
        seq![("m"@, "all"@)]
    } else {
        seq![("m"@, "mine"@)]
    };
    seq![("j/k"@, "move"@), ("/"@, "filter"@), ("⏎"@, "cd"@)] + scope + seq![
        ("i"@, "iss"@),
        ("p"@, "PR"@),
        ("f"@, "fetch"@),
        ("P"@, "push"@),
        ("y"@, "yank"@),
        ("o"@, "open"@),
        ("?"@, "help"@),
        ("q"@, "quit"@),
    ]
}

/// The hints in filter mode.
pub open spec fn filter_hints() -> Seq<(Seq<char>, Seq<char>)> {
    seq![("type"@, "filter"@), ("⌫"@, "del"@), ("⏎"@, "accept"@), ("esc"@, "clear"@)]
}

/// The footer: the note on the last key where there is one, or else the hints.
pub open spec fn footer(app: AppView) -> Seq<SpanView> {
    match app.status_message {
        Some(message) => seq![bold_of(" ✦ "@, Color::Teal), bold_of(message, Color::Teal)],
        None => match app.mode {
            Mode::Normal => pills(normal_hints(app)),
            Mode::Filter => pills(filter_hints()),
        },
    }
}

/// The footer line.
pub fn footer_line(app: &App) -> (r: Vec<Span>)
    ensures
        views(r@) == footer(app@),
{
    if let Some(message) = &app.status_message {
        return line2(bold(" ✦ ", Color::Teal), bold(message.as_str(), Color::Teal));
    }
    match app.mode {
        Mode::Normal => {
            let mut hints: Vec<(&'static str, &'static str)> = vec![
                ("j/k", "move"),
                ("/", "filter"),
                ("⏎", "cd"),
            ];
            if app.own_owners.len() > 0 {
                if app.mine_only {
                    hints.push(("m", "all"));
                } else {
                    hints.push(("m", "mine"));
                }
            }
            hints.push(("i", "iss"));
            hints.push(("p", "PR"));
            hints.push(("f", "fetch"));
            hints.push(("P", "push"));
            hints.push(("y", "yank"));
            hints.push(("o", "open"));
            hints.push(("?", "help"));
            hints.push(("q", "quit"));
            assert(hint_texts(hints@) =~= normal_hints(app@));
            footer_pills(&hints)
        },
        Mode::Filter => {
            let hints: Vec<(&'static str, &'static str)> = vec![
                ("type", "filter"),
                ("⌫", "del"),
                ("⏎", "accept"),
                ("esc", "clear"),
            ];
            assert(hint_texts(hints@) =~= filter_hints());
            footer_pills(&hints)
        },
    }
}

/// What a cell says of a number of pull requests.
pub open spec fn says_number(text: Seq<char>, n: int) -> bool {
    is_number(text) && number_read(text) == n
}

/// The pull requests of a row read back: a known number up to ninety-nine stands
/// there as it is, so two such numbers never look alike; a text that ends in `+` is
/// shown for a number greater than the one in it, and for every number of a
/// hundred or more; and where the number is not known the text is no number.
pub proof fn law_pull_requests_read_back(a: GhSnapshotView, b: GhSnapshotView)
    ensures
        a.open_pr_count is Some && a.open_pr_count->0 <= 99 ==> says_number(
            pr_text(Some(a)),
            a.open_pr_count->0 as int,
        ),
        a.open_pr_count is Some && a.open_pr_count->0 <= 99 && b.open_pr_count is Some
            && pr_text(Some(a)) == pr_text(Some(b)) ==> a.open_pr_count == b.open_pr_count,
        pr_text(Some(a)).last() == '+' ==> {
            &&& a.open_pr_count is Some
            &&& is_number(pr_text(Some(a)).drop_last())
            &&& a.open_pr_count->0 > number_read(pr_text(Some(a)).drop_last())
        },
        a.open_pr_count is Some && a.open_pr_count->0 >= 100 ==> pr_text(Some(a)).last() == '+',
        a.open_pr_count is None ==> !is_number(pr_text(Some(a))) && pr_text(Some(a)) == pr_text(
            None,
        ),
        pr_text(None) == seq!['-'],
{
    reveal_strlit("99+");
    reveal_strlit("-");
    assert("99+"@[2] == '+');
    assert("99+"@.drop_last() =~= decimal(99)) by {
        reveal_with_fuel(decimal, 3);
        assert("99+"@[0] == '9' && "99+"@[1] == '9');
        assert(decimal(9) =~= seq!['9']);
        assert(decimal(99) =~= seq!['9', '9']);
    }
    law_decimal_reads_back(99);
    assert("-"@[0] == '-');
    assert("-"@ =~= seq!['-']);
    if let Some(n) = a.open_pr_count {
        law_decimal_reads_back(n as nat);
        let s = decimal(n as nat);
        assert('0' <= s[s.len() - 1] <= '9');
    }
    if let Some(n) = b.open_pr_count {
        law_decimal_reads_back(n as nat);
    }
    assert(!is_number("99+"@)) by {
        assert(!('0' <= "99+"@[2] <= '9'));
    }
    assert(!is_number("-"@)) by {
        assert(!('0' <= "-"@[0] <= '9'));
    }
}

/// Each state of the latest workflow run has a text of its own, and so has the lack
/// of one. A run that failed, or ended in some other way than well, is red; one
/// that succeeded is green; one under way is yellow; nothing else stands out.
pub proof fn law_workflow_runs_are_told_apart(a: GhSnapshotView, b: GhSnapshotView)
    ensures
        (ci_text(Some(a)) == ci_text(Some(b))) == (a.ci_status == b.ci_status),
        (ci_text(Some(a)) == ci_text(None)) == (a.ci_status is None),
        ci_text(Some(a)) == seq![match a.ci_status {
            Some(CiStatus::Success) => '✓',
            Some(CiStatus::Failure) => '✗',
            Some(CiStatus::Pending) => '◐',
            Some(CiStatus::Skipped) => '○',
            Some(CiStatus::Other) => '!',
            None => '-',
        }],
        (ci_color(ci_text(Some(a))) == Color::Red) == (a.ci_status == Some(CiStatus::Failure)
            || a.ci_status == Some(CiStatus::Other)),
        (ci_color(ci_text(Some(a))) == Color::Green) == (a.ci_status == Some(CiStatus::Success)),
        (ci_color(ci_text(Some(a))) == Color::Yellow) == (a.ci_status == Some(CiStatus::Pending)),
        (ci_color(ci_text(Some(a))) == Color::Overlay) == (a.ci_status is None || a.ci_status
            == Some(CiStatus::Skipped)),
{
    reveal_strlit("✓");
    reveal_strlit("✗");
    reveal_strlit("◐");
    reveal_strlit("○");
    reveal_strlit("!");
    reveal_strlit("-");
    assert("✓"@[0] == '✓' && "✗"@[0] == '✗' && "◐"@[0] == '◐' && "○"@[0] == '○' && "!"@[0] == '!'
        && "-"@[0] == '-');
    assert("✓"@ =~= seq!['✓'] && "✗"@ =~= seq!['✗'] && "◐"@ =~= seq!['◐'] && "○"@ =~= seq!['○']
        && "!"@ =~= seq!['!'] && "-"@ =~= seq!['-']);
}

/// How high a bar is, from one eighth of the line, which counts as nothing, to the
/// whole of it.
pub open spec fn height(c: char) -> int {
    c as int - '▁' as int
}

/// The activity column has one bar for each week, in order. A week's bar stands as
/// many sevenths high as its commits are of the busiest week's, rounded down;
/// without any commit every bar is the lowest.
pub proof fn law_activity(s: GhSnapshotView)
    requires
        s.weekly_commits is Some,
    ensures
        ({
            let weeks = s.weekly_commits->0;
            let text = activity_text(Some(s));
            &&& text.len() == weeks.len()
            &&& forall|i: int| 0 <= i < weeks.len() ==> 0 <= height(#[trigger] text[i]) <= 7
            &&& forall|i: int, j: int|
                #![trigger text[i], weeks[j]]
                0 <= i < weeks.len() && 0 <= j < weeks.len() && (forall|k: int|
                    0 <= k < weeks.len() ==> #[trigger] weeks[k] <= weeks[j]) ==> {
                    &&& weeks[j] == 0 ==> height(text[i]) == 0
                    &&& weeks[j] > 0 ==> height(text[i]) * weeks[j] <= 7 * weeks[i] < (height(
                        text[i],
                    ) + 1) * weeks[j]
                }
        }),
{
    let weeks = s.weekly_commits->0;
    let text = activity_text(Some(s));
    lemma_peak(weeks);
    assert forall|i: int| 0 <= i < weeks.len() implies 0 <= height(#[trigger] text[i]) <= 7 by {}
    assert forall|i: int, j: int|
        #![trigger text[i], weeks[j]]
        0 <= i < weeks.len() && 0 <= j < weeks.len() && (forall|k: int|
            0 <= k < weeks.len() ==> #[trigger] weeks[k] <= weeks[j]) implies {
        &&& weeks[j] == 0 ==> height(text[i]) == 0
        &&& weeks[j] > 0 ==> height(text[i]) * weeks[j] <= 7 * weeks[i] < (height(text[i]) + 1)
            * weeks[j]
    } by {
        let top = peak(weeks);
        let at = choose|k: int| 0 <= k < weeks.len() && weeks[k] == top;
        assert(weeks[at] <= weeks[j] <= top);
        law_bars_are_relative(weeks, i, i);
        let h = level(weeks[i], top);
        assert(text[i] == bar(h));
        assert(height(bar(h)) == h);
        let a = weeks[i] as int;
        let t = top as int;
        if t > 0 {
            assert(((a * 7) / t) * t <= 7 * a < ((a * 7) / t + 1) * t) by (nonlinear_arith)
                requires
                    a >= 0,
                    t > 0,
            ;
        }
    }
}

/// The branch column shows the branch as it is, a dash where there is none, and a
/// question mark where nothing was captured.
pub proof fn law_branch_column(s: GitStatusView)
    ensures
        s.branch is Some ==> branch_text(Some(s)) == s.branch->0,
        s.branch is None ==> branch_text(Some(s)) == seq!['-'],
        branch_text(None) == seq!['?'],
{
    reveal_strlit("?");
    reveal_strlit("-");
    assert("?"@ =~= seq!['?'] && "-"@ =~= seq!['-']);
}

/// The column of commits ahead and behind reads back: after an upward arrow stands
/// how many are ahead, after a downward one how many are behind, and there is an
/// arrow for each number but zero. In sync, with a number unknown, and with nothing
/// captured it is three texts without an arrow.
pub proof fn law_ahead_and_behind_read_back(s: GitStatusView)
    ensures
        ({
            let text = ahead_behind_text(Some(s));
            let known = s.ahead is Some && s.behind is Some;
            let a = s.ahead->0;
            let b = s.behind->0;
            &&& text.contains('↑') == (known && a > 0)
            &&& text.contains('↓') == (known && b > 0)
            &&& known && a > 0 && b == 0 ==> text[0] == '↑' && says_number(text.skip(1), a as int)
            &&& known && a == 0 && b > 0 ==> text[0] == '↓' && says_number(text.skip(1), b as int)
            &&& known && a > 0 && b > 0 ==> exists|k: int|
                {
                    &&& 0 < k < text.len() - 1
                    &&& text[0] == '↑' && says_number(#[trigger] text.subrange(1, k), a as int)
                    &&& text[k + 1] == '↓' && says_number(text.skip(k + 2), b as int)
                }
            &&& (text == "="@) == (known && a == 0 && b == 0)
            &&& (text == "-"@) == !known
            &&& text != ahead_behind_text(None)
        }),
{
    reveal_strlit("=");
    reveal_strlit("-");
    reveal_strlit("?");
    reveal_strlit("↑");
    reveal_strlit("↓");
    reveal_strlit(" ↓");
    assert("="@[0] == '=' && "-"@[0] == '-' && "?"@[0] == '?' && "↑"@[0] == '↑' && "↓"@[0] == '↓');
    assert(" ↓"@[0] == ' ' && " ↓"@[1] == '↓');
    let text = ahead_behind_text(Some(s));
    if s.ahead is Some && s.behind is Some {
        let a = s.ahead->0;
        let b = s.behind->0;
        law_decimal_reads_back(a as nat);
        law_decimal_reads_back(b as nat);
        let x = decimal(a as nat);
        let y = decimal(b as nat);
        if a > 0 && b > 0 {
            let k = 1 + x.len();
            assert(text.subrange(1, k as int) =~= x);
            assert(text.skip(k as int + 2) =~= y);
            assert(text[0] == '↑');
            assert(text[k as int + 1] == '↓');
        } else if a > 0 {
            assert(text.skip(1) =~= x);
            assert(text[0] == '↑');
            assert forall|i: int| 0 <= i < text.len() implies text[i] != '↓' by {
                if i > 0 {
                    assert(text[i] == x[i - 1]);
                }
            }
        } else if b > 0 {
            assert(text.skip(1) =~= y);
            assert(text[0] == '↓');
            assert forall|i: int| 0 <= i < text.len() implies text[i] != '↑' by {
                if i > 0 {
                    assert(text[i] == y[i - 1]);
                }
            }
        }
    }
}

/// The colour of the column of commits ahead and behind says what there is to do:
/// green to push, yellow to pull, mauve for both, and nothing that stands out
/// where neither is known to be needed.
pub proof fn law_ahead_and_behind_in_colour(s: GitStatusView)
    ensures
        ({
            let color = ahead_behind_color(ahead_behind_text(Some(s)));
            let known = s.ahead is Some && s.behind is Some;
            &&& (color == Color::Green) == (known && s.ahead->0 > 0 && s.behind->0 == 0)
            &&& (color == Color::Yellow) == (known && s.ahead->0 == 0 && s.behind->0 > 0)
            &&& (color == Color::Mauve) == (known && s.ahead->0 > 0 && s.behind->0 > 0)
            &&& (color == Color::Overlay) == (!known || (s.ahead->0 == 0 && s.behind->0 == 0))
        }),
{
    law_ahead_and_behind_read_back(s);
    let text = ahead_behind_text(Some(s));
    if text.len() > 0 {
        assert(text.contains(text[0]));
    }
}

/// The column of uncommitted changes tells a changed working tree, an unchanged one
/// and one not looked at apart, by its text and by its colour.
pub proof fn law_changes_column(s: GitStatusView, t: GitStatusView)
    ensures
        (dirty_text(Some(s)) == dirty_text(Some(t))) == (s.dirty == t.dirty),
        dirty_text(Some(s)) != dirty_text(None),
        dirty_text(Some(s)) == (if s.dirty {
            seq!['●']
        } else {
            seq!['✓']
        }),
        (dirty_color(dirty_text(Some(s))) == Color::Peach) == s.dirty,
        (dirty_color(dirty_text(Some(s))) == Color::Green) == !s.dirty,
        dirty_color(dirty_text(None)) == Color::Overlay,
{
    reveal_strlit("?");
    reveal_strlit("●");
    reveal_strlit("✓");
    assert("?"@[0] == '?' && "●"@[0] == '●' && "✓"@[0] == '✓');
    assert("●"@ =~= seq!['●'] && "✓"@ =~= seq!['✓']);
}

/// Pull requests stand out, in bold, exactly where there are some.
pub proof fn law_pull_requests_stand_out(s: GhSnapshotView)
    ensures
        pr_span(pr_text(Some(s))).bold == (s.open_pr_count is Some && s.open_pr_count->0 > 0),
        pr_span(pr_text(Some(s))).text == pr_text(Some(s)),
        !pr_span(pr_text(None)).bold,
{
    reveal_strlit("0");
    reveal_strlit("-");
    reveal_strlit("99+");
    assert("-"@[0] == '-' && "0"@[0] == '0');
    if let Some(n) = s.open_pr_count {
        law_decimal_reads_back(n as nat);
        law_decimal_reads_back(0);
        assert(decimal(0) =~= "0"@);
        if n > 0 && n < 100 {
            assert(decimal(n as nat)[0] != '-');
        }
    }
}

/// A row of the table has nine cells: the repository, branch, path and tags as they
/// are, and between them what is known of its state.
pub proof fn law_cells_of_a_row(row: DashRowView)
    ensures
        ({
            let cells = cells_of(row);
            &&& cells.len() == 9
            &&& cells[0].last().text == row.slug
            &&& cells[1].last().text == branch_text(row.status)
            &&& cells[2].last().text == ahead_behind_text(row.status)
            &&& cells[3].last().text == dirty_text(row.status)
            &&& cells[4].last().text == pr_text(row.gh)
            &&& cells[5].last().text == ci_text(row.gh)
            &&& cells[6].last().text == activity_text(row.gh)
            &&& cells[7].last().text == row.path
            &&& cells[8].last().text == row.tags_display
            &&& forall|i: int| 1 <= i < 9 ==> (#[trigger] cells[i]).len() == 1
        }),
{
}

/// Two rows next to each other stand before different colours, and two with one
/// between them before the same.
pub proof fn law_stripes_alternate(position: int)
    ensures
        stripe(position) != stripe(position + 1),
        stripe(position) == stripe(position + 2),
        stripe(0) == Color::Base,
{
}

/// A line of hints says for each key, in order, the key in brackets and then what it
/// does.
pub proof fn law_pills(pairs: Seq<(Seq<char>, Seq<char>)>)
    ensures
        pills(pairs).len() == 3 * pairs.len(),
        forall|i: int|
            #![trigger pairs[i]]
            0 <= i < pairs.len() ==> {
                &&& pills(pairs)[3 * i + 1].text == "["@ + pairs[i].0 + "]"@
                &&& pills(pairs)[3 * i + 1].bold
                &&& pills(pairs)[3 * i + 2].text == pairs[i].1
            },
    decreases pairs.len(),
{
    if pairs.len() > 0 {
        let front = pairs.drop_last();
        law_pills(front);
        assert forall|i: int|
            #![trigger pairs[i]]
            0 <= i < pairs.len() implies {
            &&& pills(pairs)[3 * i + 1].text == "["@ + pairs[i].0 + "]"@
            &&& pills(pairs)[3 * i + 1].bold
            &&& pills(pairs)[3 * i + 2].text == pairs[i].1
        } by {
            if i < front.len() {
                assert(front[i] == pairs[i]);
                assert(pills(pairs)[3 * i + 1] == pills(front)[3 * i + 1]);
                assert(pills(pairs)[3 * i + 2] == pills(front)[3 * i + 2]);
            }
        }
    }
}

/// The key that flips the scope is offered exactly where owners are configured, and
/// it is said to show what is not shown.
pub proof fn law_scope_key_is_offered(app: AppView)
    ensures
        ({
            let hints = normal_hints(app);
            let n = hints.len() as int;
            &&& (exists|i: int| 0 <= i < n && (#[trigger] hints[i]).0 == "m"@) == (
            app.own_owners.len() > 0)
            &&& app.own_owners.len() > 0 ==> hints.contains(
                if app.mine_only {
                    ("m"@, "all"@)
                } else {
                    ("m"@, "mine"@)
                },
            )
            &&& hints.contains(("q"@, "quit"@))
            &&& hints.contains(("?"@, "help"@))
        }),
{
    reveal_strlit("j/k");
    reveal_strlit("/");
    reveal_strlit("⏎");
    reveal_strlit("m");
    reveal_strlit("i");
    reveal_strlit("p");
    reveal_strlit("f");
    reveal_strlit("P");
    reveal_strlit("y");
    reveal_strlit("o");
    reveal_strlit("?");
    reveal_strlit("q");
    assert("j/k"@[0] == 'j' && "/"@[0] == '/' && "⏎"@[0] == '⏎' && "m"@[0] == 'm' && "i"@[0] == 'i'
        && "p"@[0] == 'p' && "f"@[0] == 'f' && "P"@[0] == 'P' && "y"@[0] == 'y' && "o"@[0] == 'o'
        && "?"@[0] == '?' && "q"@[0] == 'q');
    let hints = normal_hints(app);
    let n = hints.len() as int;
    assert(hints[n - 1] == ("q"@, "quit"@));
    assert(hints[n - 2] == ("?"@, "help"@));
    if app.own_owners.len() > 0 {
        assert(hints[3].0 == "m"@);
    }
}

/// The footer shows the note on the last key wherever there is one, and the hints
/// only where there is none.
pub proof fn law_footer(app: AppView)
    ensures
        app.status_message is Some ==> footer(app).last().text == app.status_message->0,
        app.status_message is None && app.mode == Mode::Normal ==> footer(app) == pills(
            normal_hints(app),
        ),
        app.status_message is None && app.mode == Mode::Filter ==> footer(app) == pills(
            filter_hints(),
        ),
{
}

/// The header says how many rows are shown and how many there are; which scope is
/// shown, where owners are configured and not otherwise; and the filter as it was
/// typed, where there is one.
pub proof fn law_header(app: AppView, version: Seq<char>)
    ensures
        ({
            let line = header(app, version);
            let scoped: int = if app.own_owners.len() > 0 {
                2
            } else {
                0
            };
            let filtered: int = if app.filter.len() > 0 {
                2
            } else {
                0
            };
            &&& line.len() == 6 + scoped + filtered
            &&& says_number(line[4].text, app.matches.len() as int)
            &&& says_number(
                line[5].text.subrange(3, line[5].text.len() - 8),
                app.rows.len() as int,
            )
            &&& scoped > 0 ==> line[7].text == (if app.mine_only {
                "mine"@
            } else {
                "all"@
            })
            &&& filtered > 0 ==> line.last().text == app.filter
            &&& line[2].text.skip(2) == version
        }),
{
    reveal_strlit(" / ");
    reveal_strlit(" repo(s)");
    reveal_strlit(" v");
    law_decimal_reads_back(app.matches.len());
    law_decimal_reads_back(app.rows.len());
    let line = header(app, version);
    let total = line[5].text;
    assert(total.subrange(3, total.len() - 8) =~= decimal(app.rows.len()));
    assert(line[2].text.skip(2) =~= version);
}

/// The activity stands out exactly where it was captured; elsewhere it is a dash.
pub proof fn law_activity_stands_out(s: GhSnapshotView)
    ensures
        (activity_color(activity_text(Some(s))) == Color::Green) == (s.weekly_commits is Some),
        activity_color(activity_text(None)) == Color::Overlay,
        s.weekly_commits is None ==> activity_text(Some(s)) == seq!['-'],
        activity_text(None) == seq!['-'],
{
    reveal_strlit("-");
    assert("-"@.len() == 1 && "-"@[0] == '-');
    assert("-"@ =~= seq!['-']);
    if let Some(weeks) = s.weekly_commits {
        if weeks.len() > 0 {
            law_activity(s);
            let text = activity_text(Some(s));
            assert(0 <= height(text[0]));
        }
    }
}

/// Each role has a colour of its own.
pub proof fn law_palette(a: Color, b: Color)
    ensures
        (a.parts() == b.parts()) == (a == b),
{
}

/// The hints tell what each key does, in either mode.
pub proof fn law_hints(app: AppView)
    ensures
        ({
            let hints = normal_hints(app);
            &&& hints.contains(("j/k"@, "move"@))
            &&& hints.contains(("/"@, "filter"@))
            &&& hints.contains(("⏎"@, "cd"@))
            &&& hints.contains(("i"@, "iss"@))
            &&& hints.contains(("p"@, "PR"@))
            &&& hints.contains(("f"@, "fetch"@))
            &&& hints.contains(("P"@, "push"@))
            &&& hints.contains(("y"@, "yank"@))
            &&& hints.contains(("o"@, "open"@))
            &&& hints.len() == 11 + (if app.own_owners.len() > 0 {
                1int
            } else {
                0
            })
        }),
        filter_hints().contains(("⏎"@, "accept"@)),
        filter_hints().contains(("esc"@, "clear"@)),
        filter_hints().contains(("⌫"@, "del"@)),
{
    let hints = normal_hints(app);
    let n = hints.len() as int;
    assert(hints[0] == ("j/k"@, "move"@));
    assert(hints[1] == ("/"@, "filter"@));
    assert(hints[2] == ("⏎"@, "cd"@));
    assert(hints[n - 8] == ("i"@, "iss"@));
    assert(hints[n - 7] == ("p"@, "PR"@));
    assert(hints[n - 6] == ("f"@, "fetch"@));
    assert(hints[n - 5] == ("P"@, "push"@));
    assert(hints[n - 4] == ("y"@, "yank"@));
    assert(hints[n - 3] == ("o"@, "open"@));
    assert(filter_hints()[1] == ("⌫"@, "del"@));
    assert(filter_hints()[2] == ("⏎"@, "accept"@));
    assert(filter_hints()[3] == ("esc"@, "clear"@));
}

} // verus!
