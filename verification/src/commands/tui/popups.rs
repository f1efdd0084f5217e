//! What lies on top of the dashboard: the help, the picker and the result of an
//! action.
use vstd::prelude::*;
use vstd::string::*;

use crate::commands::tui::app::{ActionPopup, ActionPopupView};
use crate::commands::tui::picker::{Picker, PickerKind, PickerView};
use crate::commands::tui::screen::{
    blank, bold, bold_of, footer_pills, hint_texts, line1, line2, lines_of, pills, plain, plain_of,
    push_line, push_span, Color, Span, SpanView,
};
use crate::gh::{PickerItem, PickerItemView};
use crate::seqs::views;
use crate::text::{
    blank_text, chars_of, decimal, decimal_of, has, is_number, join, joined, law_decimal_reads_back,
    law_trimmed, lemma_split_at, lemma_split_whole, number_read, occurs_at, split, split_on,
    string_of, texts, trim, trimmed, white_space,
};

verus! {

/// The shares of a side that lie before a centred popup and under it, in
/// percent. A popup takes at most the whole side.
pub fn centered_share(percent: u16) -> (r: (u16, u16))
    ensures
        r.1 == (if percent <= 100 {
            percent
        } else {
            100
        }),
        r.0 == (100 - r.1) / 2,
        r.0 * 2 + r.1 <= 100,
{
    let share: u16 = if percent <= 100 {
        percent
    } else {
        100
    };
    ((100 - share) / 2, share)
}

/// Spaces.
pub open spec fn spaces(n: int) -> Seq<char> {
    Seq::new(
        if n > 0 {
            n as nat
        } else {
            0
        },
        |i: int| ' ',
    )
}

/// Spaces up to a width behind a text.
fn padding(width: usize, taken: usize) -> (r: String)
    ensures
        r@ == spaces(width - taken),
{
    let mut r = String::new();
    let mut n: usize = taken;
    while n < width
        invariant
            r@ == spaces(n - taken),
            taken <= n,
            n <= width || n == taken,
        decreases width - n,
    {
        r.push(' ');
        assert(r@ =~= spaces(n + 1 - taken));
        n = n + 1;
    }
    r
}

/// A text at the right of a column.
pub open spec fn right_aligned(s: Seq<char>, width: int) -> Seq<char> {
    spaces(width - s.len()) + s
}

/// A text at the left of a column.
pub open spec fn left_aligned(s: Seq<char>, width: int) -> Seq<char> {
    s + spaces(width - s.len())
}

/// The length of the longest key.
pub open spec fn widest(entries: Seq<(Seq<char>, Seq<char>)>) -> nat
    decreases entries.len(),
{
    if entries.len() == 0 {
        0
    } else {
        let before = widest(entries.drop_last());
        if entries.last().0.len() > before {
            entries.last().0.len()
        } else {
            before
        }
    }
}

/// The length of the longest key.
fn widest_key(entries: &[(&'static str, &'static str)]) -> (r: usize)
    ensures
        r == widest(hint_texts(entries@)),
{
    let ghost all = hint_texts(entries@);
    let mut width: usize = 0;
    let mut i: usize = 0;
    assert(all.take(0) =~= Seq::empty());
    while i < entries.len()
        invariant
            i <= entries@.len(),
            all == hint_texts(entries@),
            width == widest(all.take(i as int)),
        decreases entries@.len() - i,
    {
        let (key, _) = entries[i];
        let n: usize = key.unicode_len();
        proof {
            let next = all.take(i + 1);
            assert(next.drop_last() =~= all.take(i as int));
            assert(next.last().0 == key@);
        }
        if n > width {
            width = n;
        }
        i = i + 1;
    }
    assert(all.take(i as int) =~= all);
    width
}

/// The lines of some keys, aligned to a width.
pub open spec fn entry_lines(entries: Seq<(Seq<char>, Seq<char>)>, width: int) -> Seq<
    Seq<SpanView>,
> {
    entries.map_values(
        |e: (Seq<char>, Seq<char>)|
            seq![
                bold_of("    "@ + right_aligned(e.0, width) + "  "@, Color::Yellow),
                plain_of(e.1, Color::Subtext),
            ],
    )
}

/// A section of the help: its heading, then its keys, aligned.
pub open spec fn section_lines(heading: Seq<char>, entries: Seq<(Seq<char>, Seq<char>)>) -> Seq<
    Seq<SpanView>,
> {
    seq![seq![bold_of("  ✦ "@ + heading, Color::Mauve)]] + entry_lines(
        entries,
        widest(entries) as int,
    )
}

/// Adds a section of the help.
fn push_section(
    out: &mut Vec<Vec<Span>>,
    heading: &str,
    entries: &[(&'static str, &'static str)],
)
    ensures
        lines_of(final(out)@) == lines_of(old(out)@) + section_lines(
            heading@,
            hint_texts(entries@),
        ),
{
    let ghost was = lines_of(out@);
    let ghost all = hint_texts(entries@);
    push_line(out, line1(bold("  ✦ ".to_owned().concat(heading).as_str(), Color::Mauve)));
    let width: usize = widest_key(entries);
    let ghost head = was.push(seq![bold_of("  ✦ "@ + heading@, Color::Mauve)]);
    let ghost body = entry_lines(all, width as int);
    let mut i: usize = 0;
    assert(lines_of(out@) =~= head + body.take(0));
    while i < entries.len()
        invariant
            i <= entries@.len(),
            all == hint_texts(entries@),
            body == entry_lines(all, width as int),
            lines_of(out@) == head + body.take(i as int),
        decreases entries@.len() - i,
    {
        let (key, what) = entries[i];
        let pad = padding(width, key.unicode_len());
        let column = "    ".to_owned().concat(pad.concat(key).as_str()).concat("  ");
        push_line(
            out,
            line2(bold(column.as_str(), Color::Yellow), plain(what, Color::Subtext)),
        );
        proof {
            assert(all[i as int] == (key@, what@));
            assert(lines_of(out@) =~= head + body.take(i + 1));
        }
        i = i + 1;
    }
    assert(lines_of(out@) =~= was + section_lines(heading@, all));
}

/// The keys that move and choose.
pub open spec fn navigation_keys() -> Seq<(Seq<char>, Seq<char>)> {
    seq![
        ("j / ↓"@, "move down"@),
        ("k / ↑"@, "move up"@),
        ("g"@, "jump to top"@),
        ("G"@, "jump to bottom"@),
        ("/"@, "filter — type to narrow, esc to clear"@),
        ("m"@, "toggle mine / all (needs [ui].own_owners)"@),
        ("Enter"@, "select (emit path for the shell wrapper to cd)"@),
    ]
}

/// The keys that open pickers and pages.
pub open spec fn picker_keys() -> Seq<(Seq<char>, Seq<char>)> {
    seq![
        ("i"@, "open Issues for this repo in a fuzzy picker"@),
        ("p"@, "open Pull Requests for this repo in a fuzzy picker"@),
        ("o"@, "open repo home in browser"@),
        ("y"@, "yank slug to clipboard"@),
    ]
}

/// The keys that act on a repository.
pub open spec fn action_keys() -> Seq<(Seq<char>, Seq<char>)> {
    seq![("f"@, "fetch (jj git fetch / git fetch)"@), ("P"@, "push (jj git push / git push)"@)]
}

/// The keys that leave.
pub open spec fn quit_keys() -> Seq<(Seq<char>, Seq<char>)> {
    seq![("? / F1"@, "toggle this help"@), ("q / Esc"@, "quit"@), ("Ctrl-C"@, "quit"@)]
}

/// The help: its sections, with an empty line between them.
pub open spec fn help() -> Seq<Seq<SpanView>> {
    section_lines("Navigation"@, navigation_keys()).push(Seq::empty()) + section_lines(
        "Pickers & Browser"@,
        picker_keys(),
    ).push(Seq::empty()) + section_lines("Repo actions"@, action_keys()).push(Seq::empty())
        + section_lines("Quit"@, quit_keys())
}

/// The lines of the help.
pub fn help_lines() -> (r: Vec<Vec<Span>>)
    ensures
        lines_of(r@) == help(),
{
    let navigation: Vec<(&'static str, &'static str)> = vec![
        ("j / ↓", "move down"),
        ("k / ↑", "move up"),
        ("g", "jump to top"),
        ("G", "jump to bottom"),
        ("/", "filter — type to narrow, esc to clear"),
        ("m", "toggle mine / all (needs [ui].own_owners)"),
        ("Enter", "select (emit path for the shell wrapper to cd)"),
    ];
    assert(hint_texts(navigation@) =~= navigation_keys());
    let pickers: Vec<(&'static str, &'static str)> = vec![
        ("i", "open Issues for this repo in a fuzzy picker"),
        ("p", "open Pull Requests for this repo in a fuzzy picker"),
        ("o", "open repo home in browser"),
        ("y", "yank slug to clipboard"),
    ];
    assert(hint_texts(pickers@) =~= picker_keys());
    let actions: Vec<(&'static str, &'static str)> = vec![
        ("f", "fetch (jj git fetch / git fetch)"),
        ("P", "push (jj git push / git push)"),
    ];
    assert(hint_texts(actions@) =~= action_keys());
    let quit: Vec<(&'static str, &'static str)> = vec![
        ("? / F1", "toggle this help"),
        ("q / Esc", "quit"),
        ("Ctrl-C", "quit"),
    ];
    assert(hint_texts(quit@) =~= quit_keys());
    let mut out: Vec<Vec<Span>> = Vec::new();
    assert(lines_of(out@) =~= Seq::empty());
    push_section(&mut out, "Navigation", &navigation);
    push_line(&mut out, blank());
    push_section(&mut out, "Pickers & Browser", &pickers);
    push_line(&mut out, blank());
    push_section(&mut out, "Repo actions", &actions);
    push_line(&mut out, blank());
    push_section(&mut out, "Quit", &quit);
    assert(lines_of(out@) =~= help());
    out
}

/// The lines of a text. A line ends at a line feed, with the carriage return
/// before it where there is one; an empty rest is no line.
pub open spec fn text_lines(s: Seq<char>) -> Seq<Seq<char>> {
    let parts = split(s, '\n');
    let full = parts.drop_last().map_values(|l: Seq<char>| without_return(l));
    if parts.last().len() == 0 {
        full
    } else {
        full.push(parts.last())
    }
}

/// A line without the carriage return at its end.
pub open spec fn without_return(line: Seq<char>) -> Seq<char> {
    if line.len() > 0 && line.last() == '\r' {
        line.drop_last()
    } else {
        line
    }
}

/// A line without the carriage return at its end.
fn strip_return(line: &str) -> (r: String)
    ensures
        r@ == without_return(line@),
{
    let v = chars_of(line);
    let n: usize = v.len();
    if n > 0 && v[n - 1] == '\r' {
        let r = string_of(&v, 0, n - 1);
        assert(r@ =~= line@.drop_last());
        r
    } else {
        line.to_owned()
    }
}

/// The lines of an output, indented.
pub open spec fn output_lines(s: Seq<char>) -> Seq<Seq<SpanView>> {
    text_lines(s).map_values(|l: Seq<char>| seq![plain_of("    "@ + l, Color::Subtext)])
}

/// Adds the lines of an output, indented.
fn push_output(out: &mut Vec<Vec<Span>>, s: &str)
    ensures
        lines_of(final(out)@) == lines_of(old(out)@) + output_lines(s@),
{
    let ghost was = lines_of(out@);
    let parts = split_on(s, '\n');
    let ghost all = split(s@, '\n');
    let ghost want = output_lines(s@);
    proof {
        lemma_split_at(Seq::empty(), '\n', s@);
    }
    let total: usize = parts.len();
    let mut i: usize = 0;
    assert(lines_of(out@) =~= was + want.take(0));
    while i < total
        invariant
            i <= total == parts@.len(),
            texts(parts@) == all,
            all == split(s@, '\n'),
            want == output_lines(s@),
            lines_of(out@) == was + want.take(
                if i <= want.len() {
                    i as int
                } else {
                    want.len() as int
                },
            ),
        decreases total - i,
    {
        assert(all[i as int] == parts@[i as int]@);
        let last = i == total - 1;
        if !last {
            let line = strip_return(parts[i].as_str());
            push_line(
                out,
                line1(plain("    ".to_owned().concat(line.as_str()).as_str(), Color::Subtext)),
            );
            assert(text_lines(s@)[i as int] == line@);
            assert(lines_of(out@) =~= was + want.take(i + 1));
        } else if parts[i].as_str().unicode_len() > 0 {
            push_line(
                out,
                line1(
                    plain("    ".to_owned().concat(parts[i].as_str()).as_str(), Color::Subtext),
                ),
            );
            assert(text_lines(s@)[i as int] == parts@[i as int]@);
            assert(lines_of(out@) =~= was + want.take(i + 1));
        } else {
            assert(want.len() == i);
        }
        i = i + 1;
    }
    assert(lines_of(out@) =~= was + want);
}

/// Whether there is anything but white space in an output.
pub open spec fn says_something(s: Seq<char>) -> bool {
    trimmed(s).len() > 0
}

/// The title of an action's result.
pub open spec fn action_title_text(popup: ActionPopupView) -> Seq<char> {
    " ⚙  "@ + popup.kind.label_text() + " — "@ + popup.repo_label + " "@
}

/// The title of an action's result.
pub fn action_title(popup: &ActionPopup) -> (r: String)
    ensures
        r@ == action_title_text(popup@),
{
    " ⚙  ".to_owned().concat(popup.kind.label()).concat(" — ").concat(
        popup.repo_label.as_str(),
    ).concat(" ")
}

/// The colour round an action's result: green only where it succeeded.
pub open spec fn action_border_of(popup: ActionPopupView) -> Color {
    match popup.outcome {
        Some(o) => if o.success {
            Color::Green
        } else {
            Color::Red
        },
        None => Color::Red,
    }
}

/// The colour round an action's result.
pub fn action_border(popup: &ActionPopup) -> (r: Color)
    ensures
        r == action_border_of(popup@),
{
    match &popup.outcome {
        Some(o) => {
            if o.success {
                Color::Green
            } else {
                Color::Red
            }
        },
        None => Color::Red,
    }
}

/// An output under its name; nothing where the output says nothing.
pub open spec fn stream_lines(name: Seq<char>, color: Color, s: Seq<char>) -> Seq<Seq<SpanView>> {
    if says_something(s) {
        seq![seq![bold_of(name, color)]] + output_lines(s)
    } else {
        Seq::empty()
    }
}

/// Adds an output under its name; says whether there was anything to add.
fn push_stream(out: &mut Vec<Vec<Span>>, name: &str, color: Color, s: &str) -> (r: bool)
    ensures
        r == says_something(s@),
        lines_of(final(out)@) == lines_of(old(out)@) + stream_lines(name@, color, s@),
{
    let ghost was = lines_of(out@);
    if trim(s).as_str().unicode_len() == 0 {
        assert(lines_of(out@) =~= was + stream_lines(name@, color, s@));
        return false;
    }
    push_line(out, line1(bold(name, color)));
    push_output(out, s);
    assert(lines_of(out@) =~= was + stream_lines(name@, color, s@));
    true
}

/// The lines of an action's result: the command, how it ended and what it
/// printed, or why it did not run; then how to close it.
pub open spec fn action_body(popup: ActionPopupView) -> Seq<Seq<SpanView>> {
    let told = match popup.outcome {
        Some(o) => {
            let head = seq![
                seq![
                    bold_of("  "@ + o.vcs.label_text() + " "@, Color::Mauve),
                    plain_of("$ "@ + o.command, Color::Text),
                ],
                seq![
                    if o.success {
                        bold_of("  ✓ success"@, Color::Green)
                    } else {
                        bold_of("  ✗ failed"@, Color::Red)
                    },
                ],
                Seq::empty(),
            ];
            let stdout = stream_lines("  stdout:"@, Color::Sky, o.stdout);
            let gap = if says_something(o.stdout) && says_something(o.stderr) {
                seq![Seq::empty()]
            } else {
                Seq::empty()
            };
            let stderr = stream_lines("  stderr:"@, Color::Pink, o.stderr);
            let silence = if !says_something(o.stdout) && !says_something(o.stderr) {
                seq![seq![plain_of("  (no output)"@, Color::Overlay)]]
            } else {
                Seq::empty()
            };
            head + stdout + gap + stderr + silence
        },
        None => seq![Seq::empty(), seq![plain_of("  ⚠  "@ + popup.error, Color::Red)]],
    };
    told + seq![Seq::empty(), seq![plain_of("  press any key to close"@, Color::Overlay)]]
}

/// The lines of an action's result.
pub fn action_lines(popup: &ActionPopup) -> (r: Vec<Vec<Span>>)
    ensures
        lines_of(r@) == action_body(popup@),
{
    let mut out: Vec<Vec<Span>> = Vec::new();
    assert(lines_of(out@) =~= Seq::empty());
    match &popup.outcome {
        Some(o) => {
            let vcs = "  ".to_owned().concat(o.vcs.label()).concat(" ");
            let command = "$ ".to_owned().concat(o.command.as_str());
            push_line(
                &mut out,
                line2(bold(vcs.as_str(), Color::Mauve), plain(command.as_str(), Color::Text)),
            );
            if o.success {
                push_line(&mut out, line1(bold("  ✓ success", Color::Green)));
            } else {
                push_line(&mut out, line1(bold("  ✗ failed", Color::Red)));
            }
            push_line(&mut out, blank());
            let ghost head = lines_of(out@);
            let printed = push_stream(&mut out, "  stdout:", Color::Sky, o.stdout.as_str());
            let complained = trim(o.stderr.as_str()).as_str().unicode_len() > 0;
            if printed && complained {
                push_line(&mut out, blank());
            }
            push_stream(&mut out, "  stderr:", Color::Pink, o.stderr.as_str());
            if !printed && !complained {
                push_line(&mut out, line1(plain("  (no output)", Color::Overlay)));
            }
        },
        None => {
            push_line(&mut out, blank());
            push_line(
                &mut out,
                line1(plain("  ⚠  ".to_owned().concat(popup.error.as_str()).as_str(), Color::Red)),
            );
        },
    }
    push_line(&mut out, blank());
    push_line(&mut out, line1(plain("  press any key to close", Color::Overlay)));
    assert(lines_of(out@) =~= action_body(popup@));
    out
}

/// How long a frame of the spinner lasts, in milliseconds.
pub const SPINNER_FRAME_MS: u64 = 80;

/// The frames of the spinner.
pub open spec fn spinner_frames() -> Seq<Seq<char>> {
    seq!["⠋"@, "⠙"@, "⠹"@, "⠸"@, "⠼"@, "⠴"@, "⠦"@, "⠧"@, "⠇"@, "⠏"@]
}

/// The frame that the spinner shows after some milliseconds.
pub fn spinner_frame(elapsed_ms: u128) -> (r: &'static str)
    ensures
        r@ == spinner_frames()[(elapsed_ms as int / SPINNER_FRAME_MS as int) % 10],
{
    let n: u128 = (elapsed_ms / SPINNER_FRAME_MS as u128) % 10;
    if n == 0 {
        "⠋"
    } else if n == 1 {
        "⠙"
    } else if n == 2 {
        "⠹"
    } else if n == 3 {
        "⠸"
    } else if n == 4 {
        "⠼"
    } else if n == 5 {
        "⠴"
    } else if n == 6 {
        "⠦"
    } else if n == 7 {
        "⠧"
    } else if n == 8 {
        "⠇"
    } else {
        "⠏"
    }
}

/// The title of a picker.
pub open spec fn picker_title_text(picker: PickerView) -> Seq<char> {
    let glyph = match picker.kind {
        PickerKind::Issues => "🐛"@,
        PickerKind::Prs => "🔀"@,
    };
    " "@ + glyph + "  "@ + picker.kind.title_text() + " — "@ + picker.repo_label + " "@
}

/// The title of a picker.
pub fn picker_title(picker: &Picker) -> (r: String)
    ensures
        r@ == picker_title_text(picker@),
{
    let glyph = match picker.kind {
        PickerKind::Issues => "🐛",
        PickerKind::Prs => "🔀",
    };
    " ".to_owned().concat(glyph).concat("  ").concat(picker.kind.title()).concat(" — ").concat(
        picker.repo_label.as_str(),
    ).concat(" ")
}

/// What a picker that is loading says.
pub open spec fn fetching(kind: PickerKind) -> Seq<char> {
    match kind {
        PickerKind::Issues => "fetching issues…"@,
        PickerKind::Prs => "fetching pull requests…"@,
    }
}

/// The lines of a picker that is loading.
pub fn loading_lines(kind: PickerKind, elapsed_ms: u128) -> (r: Vec<Vec<Span>>)
    ensures
        lines_of(r@) == seq![
            Seq::<SpanView>::empty(),
            seq![
                bold_of(
                    "  "@ + spinner_frames()[(elapsed_ms as int / SPINNER_FRAME_MS as int) % 10]
                        + "  "@,
                    Color::Peach,
                ),
                plain_of(fetching(kind), Color::Text),
            ],
            Seq::<SpanView>::empty(),
            seq![plain_of("  esc / q to cancel"@, Color::Overlay)],
        ],
{
    let mut out: Vec<Vec<Span>> = Vec::new();
    assert(lines_of(out@) =~= Seq::empty());
    let frame = "  ".to_owned().concat(spinner_frame(elapsed_ms)).concat("  ");
    let told = match kind {
        PickerKind::Issues => "fetching issues…",
        PickerKind::Prs => "fetching pull requests…",
    };
    push_line(&mut out, blank());
    push_line(&mut out, line2(bold(frame.as_str(), Color::Peach), plain(told, Color::Text)));
    push_line(&mut out, blank());
    push_line(&mut out, line1(plain("  esc / q to cancel", Color::Overlay)));
    out
}

/// The lines of a picker that has only an error to show.
pub fn error_lines(message: &str) -> (r: Vec<Vec<Span>>)
    ensures
        lines_of(r@) == seq![
            Seq::<SpanView>::empty(),
            seq![plain_of("  ⚠  "@ + message@, Color::Red)],
            Seq::<SpanView>::empty(),
            seq![plain_of("  esc / q to close"@, Color::Overlay)],
        ],
{
    let mut out: Vec<Vec<Span>> = Vec::new();
    assert(lines_of(out@) =~= Seq::empty());
    push_line(&mut out, blank());
    push_line(
        &mut out,
        line1(plain("  ⚠  ".to_owned().concat(message).as_str(), Color::Red)),
    );
    push_line(&mut out, blank());
    push_line(&mut out, line1(plain("  esc / q to close", Color::Overlay)));
    out
}

/// The filter of a picker, with a caret behind it.
pub fn filter_line(filter: &str) -> (r: Vec<Span>)
    ensures
        views(r@) == seq![
            bold_of("  / "@, Color::Peach),
            plain_of(filter@, Color::Yellow),
            bold_of("▌"@, Color::Peach),
        ],
{
    let mut out = line2(bold("  / ", Color::Peach), plain(filter, Color::Yellow));
    push_span(&mut out, bold("▌", Color::Peach));
    out
}

/// The first item of a picker's list that is in view: the list scrolls once the
/// marked item would leave it at the bottom.
pub open spec fn scroll_top(cursor: int, height: int) -> int {
    if height > 0 && cursor >= height {
        cursor - (height - 1)
    } else if height <= 0 {
        cursor
    } else {
        0
    }
}

/// An item of a picker's list.
pub open spec fn item_line(item: PickerItemView, marked: bool) -> Seq<SpanView> {
    let head = seq![
        bold_of(
            if marked {
                " ▶ "@
            } else {
                "   "@
            },
            Color::Peach,
        ),
        plain_of("#"@ + left_aligned(decimal(item.number as nat), 5) + "  "@, Color::Mauve),
        plain_of(item.title, Color::Text),
    ];
    if item.labels.len() == 0 {
        head
    } else {
        head.push(plain_of("  ["@ + joined(item.labels, ","@) + "]"@, Color::Teal))
    }
}

/// An item of a picker's list.
fn item_spans(item: &PickerItem, marked: bool) -> (r: Vec<Span>)
    ensures
        views(r@) == item_line(item@, marked),
{
    let number = decimal_of(item.number);
    let pad = padding(5, number.as_str().unicode_len());
    let column = "#".to_owned().concat(number.concat(pad.as_str()).as_str()).concat("  ");
    let mut out = line2(
        bold(
            if marked {
                " ▶ "
            } else {
                "   "
            },
            Color::Peach,
        ),
        plain(column.as_str(), Color::Mauve),
    );
    push_span(&mut out, plain(item.title.as_str(), Color::Text));
    if item.labels.len() > 0 {
        let labels = "  [".to_owned().concat(join(&item.labels, ",").as_str()).concat("]");
        push_span(&mut out, plain(labels.as_str(), Color::Teal));
    }
    assert(views(out@) =~= item_line(item@, marked));
    out
}

/// The items of a list that are in view at a height.
pub open spec fn in_view(
    items: Seq<PickerItemView>,
    matches: Seq<usize>,
    cursor: int,
    height: int,
) -> Seq<Seq<SpanView>> {
    let top = scroll_top(cursor, height);
    let end = if top + height < matches.len() {
        top + height
    } else {
        matches.len() as int
    };
    if end <= top {
        Seq::empty()
    } else {
        Seq::new(
            (end - top) as nat,
            |k: int| item_line(items[matches[top + k] as int], top + k == cursor),
        )
    }
}

/// The list of a picker's items at a height, and which of its lines is marked.
#[derive(Debug)]
pub struct ItemList {
    pub lines: Vec<Vec<Span>>,
    pub marked: Option<usize>,
}

/// The items of a picker that are in view at a height, or that there are none.
/// The marked item is always in view.
pub fn item_list(
    items: &Vec<PickerItem>,
    matches: &Vec<usize>,
    cursor: usize,
    height: usize,
) -> (r: ItemList)
    requires
        forall|k: int| 0 <= k < matches@.len() ==> #[trigger] matches@[k] < items@.len(),
    ensures
        ({
            let shown = in_view(views(items@), matches@, cursor as int, height as int);
            lines_of(r.lines@) == (if shown.len() == 0 {
                seq![seq![plain_of("  (no matches)"@, Color::Overlay)]]
            } else {
                shown
            })
        }),
        r.marked == (if height > 0 && cursor < matches@.len() {
            Some((cursor - scroll_top(cursor as int, height as int)) as usize)
        } else {
            None
        }),
        r.marked matches Some(m) ==> m < height && m < r.lines@.len(),
{
    let total: usize = matches.len();
    let top: usize = if height == 0 {
        cursor
    } else if cursor >= height {
        cursor - (height - 1)
    } else {
        0
    };
    let ghost all = views(items@);
    let ghost shown = in_view(all, matches@, cursor as int, height as int);
    let mut out: Vec<Vec<Span>> = Vec::new();
    let mut marked: Option<usize> = None;
    let mut at: usize = top;
    assert(lines_of(out@) =~= shown.take(0));
    while at < total && at - top < height
        invariant
            forall|k: int| 0 <= k < matches@.len() ==> #[trigger] matches@[k] < items@.len(),
            total == matches@.len(),
            top == scroll_top(cursor as int, height as int),
            top <= at,
            at - top <= height,
            at <= total || at == top,
            all == views(items@),
            shown == in_view(all, matches@, cursor as int, height as int),
            at - top <= shown.len(),
            lines_of(out@) == shown.take(at - top),
            out@.len() == at - top,
            marked == (if top <= cursor < at {
                Some((cursor - top) as usize)
            } else {
                None
            }),
        decreases total - at,
    {
        let i: usize = matches[at];
        assert(all[i as int] == items@[i as int]@);
        let is_marked = at == cursor;
        if is_marked {
            marked = Some(at - top);
        }
        push_line(&mut out, item_spans(&items[i], is_marked));
        assert(shown[at - top] == item_line(all[i as int], is_marked));
        assert(lines_of(out@) =~= shown.take(at + 1 - top));
        at = at + 1;
    }
    assert(shown.take(at - top) =~= shown);
    if out.len() == 0 {
        push_line(&mut out, line1(plain("  (no matches)", Color::Overlay)));
        assert(lines_of(out@) =~= seq![seq![plain_of("  (no matches)"@, Color::Overlay)]]);
    }
    ItemList { lines: out, marked }
}

/// The hints under a picker's list.
pub fn picker_footer() -> (r: Vec<Span>)
    ensures
        views(r@) == pills(
            seq![("j/k"@, "move"@), ("type"@, "filter"@), ("⏎"@, "open"@), ("esc"@, "close"@)],
        ),
{
    let hints: Vec<(&'static str, &'static str)> = vec![
        ("j/k", "move"),
        ("type", "filter"),
        ("⏎", "open"),
        ("esc", "close"),
    ];
    assert(hint_texts(hints@) =~= seq![
        ("j/k"@, "move"@),
        ("type"@, "filter"@),
        ("⏎"@, "open"@),
        ("esc"@, "close"@),
    ]);
    footer_pills(&hints)
}

/// A text in a column fills it, with the text at its right or at its left and spaces
/// for the rest; one that is too long for the column is kept whole.
pub proof fn law_columns(s: Seq<char>, width: int)
    ensures
        right_aligned(s, width).len() == left_aligned(s, width).len(),
        s.len() <= width ==> right_aligned(s, width).len() == width,
        s.len() >= width ==> right_aligned(s, width) == s && left_aligned(s, width) == s,
        right_aligned(s, width).skip(right_aligned(s, width).len() - s.len()) == s,
        left_aligned(s, width).take(s.len() as int) == s,
        forall|i: int|
            0 <= i < right_aligned(s, width).len() - s.len() ==> #[trigger] right_aligned(
                s,
                width,
            )[i] == ' ',
        forall|i: int|
            s.len() <= i < left_aligned(s, width).len() ==> #[trigger] left_aligned(s, width)[i]
                == ' ',
{
    let r = right_aligned(s, width);
    let l = left_aligned(s, width);
    assert(r.skip(r.len() - s.len()) =~= s);
    assert(l.take(s.len() as int) =~= s);
    if s.len() >= width {
        assert(r =~= s && l =~= s);
    }
}

/// No key is longer than the longest, which is one of them.
pub proof fn law_longest_key(entries: Seq<(Seq<char>, Seq<char>)>)
    ensures
        forall|i: int| 0 <= i < entries.len() ==> (#[trigger] entries[i]).0.len() <= widest(entries),
        entries.len() > 0 ==> exists|i: int|
            0 <= i < entries.len() && (#[trigger] entries[i]).0.len() == widest(entries),
    decreases entries.len(),
{
    if entries.len() > 0 {
        let front = entries.drop_last();
        law_longest_key(front);
        assert forall|i: int| 0 <= i < entries.len() implies (#[trigger] entries[i]).0.len()
            <= widest(entries) by {
            if i < front.len() {
                assert(front[i] == entries[i]);
            }
        }
        let last = entries.len() - 1;
        assert(entries[last] == entries.last());
        if entries.last().0.len() <= widest(front) && front.len() > 0 {
            let i = choose|i: int|
                0 <= i < front.len() && (#[trigger] front[i]).0.len() == widest(front);
            assert(entries[i] == front[i]);
        }
    }
}

/// A section of the help has a line for its heading and one for each key, in order:
/// the key, then what it does. All key columns are equally wide.
pub proof fn law_section(heading: Seq<char>, entries: Seq<(Seq<char>, Seq<char>)>)
    ensures
        ({
            let lines = section_lines(heading, entries);
            &&& lines.len() == entries.len() + 1
            &&& occurs_at(lines[0][0].text, heading, 4)
            &&& forall|i: int|
                #![trigger entries[i]]
                0 <= i < entries.len() ==> {
                    &&& lines[i + 1].len() == 2
                    &&& lines[i + 1][0].text.len() == widest(entries) + 6
                    &&& occurs_at(
                        lines[i + 1][0].text,
                        entries[i].0,
                        4 + widest(entries) - entries[i].0.len(),
                    )
                    &&& lines[i + 1][1].text == entries[i].1
                }
        }),
{
    reveal_strlit("    ");
    reveal_strlit("  ");
    reveal_strlit("  ✦ ");
    let lines = section_lines(heading, entries);
    let w = widest(entries) as int;
    law_longest_key(entries);
    let head = lines[0][0].text;
    assert(head.subrange(4, 4 + heading.len() as int) =~= heading);
    assert forall|i: int|
        #![trigger entries[i]]
        0 <= i < entries.len() implies {
        &&& lines[i + 1].len() == 2
        &&& lines[i + 1][0].text.len() == w + 6
        &&& occurs_at(lines[i + 1][0].text, entries[i].0, 4 + w - entries[i].0.len())
        &&& lines[i + 1][1].text == entries[i].1
    } by {
        let key = entries[i].0;
        assert(key.len() <= w);
        law_columns(key, w);
        let text = lines[i + 1][0].text;
        let at = 4 + w - key.len();
        assert(text.subrange(at, at + key.len()) =~= key);
    }
}

/// A line of a text: without a line feed.
pub open spec fn is_line(s: Seq<char>) -> bool {
    !s.contains('\n')
}

/// Lines that are each ended by a line feed come out as they are, but for the
/// carriage return before it; a last one that is not ended comes out as it is, and an
/// empty rest is no line.
pub proof fn law_lines_of_a_text(line: Seq<char>, rest: Seq<char>)
    requires
        is_line(line),
    ensures
        text_lines(line + "\n"@ + rest) == seq![without_return(line)] + text_lines(rest),
        line.len() > 0 ==> text_lines(line) == seq![line],
        text_lines(Seq::empty()).len() == 0,
        line.len() == 0 || line.last() != '\r' ==> without_return(line) == line,
        without_return(line.push('\r')) == line,
{
    reveal_strlit("\n");
    let whole = line + "\n"@ + rest;
    assert(whole =~= line.push('\n') + rest);
    lemma_split_at(line, '\n', rest);
    lemma_split_whole(line, '\n');
    let parts = split(whole, '\n');
    let tail = split(rest, '\n');
    assert(parts =~= seq![line] + tail);
    assert(parts.drop_last() =~= seq![line] + tail.drop_last());
    assert(parts.last() == tail.last());
    assert(text_lines(whole) =~= seq![without_return(line)] + text_lines(rest));
    assert(seq![line].drop_last() =~= Seq::empty());
    if line.len() > 0 {
        assert(text_lines(line) =~= seq![line]);
    }
    let none = Seq::<char>::empty();
    lemma_split_whole(none, '\n');
    assert(seq![none].drop_last() =~= Seq::empty());
    assert(line.push('\r').drop_last() =~= line);
}

/// Each line of an output is shown, indented.
pub proof fn law_lines_of_an_output(s: Seq<char>)
    ensures
        output_lines(s).len() == text_lines(s).len(),
        forall|i: int|
            0 <= i < text_lines(s).len() ==> (#[trigger] output_lines(s)[i]).len() == 1
                && output_lines(s)[i][0].text == "    "@ + text_lines(s)[i],
{
}

/// An output says something exactly when it is not all white space.
pub proof fn law_silence(s: Seq<char>)
    ensures
        says_something(s) == !blank_text(s),
{
    law_trimmed(s);
    if trimmed(s).len() == 0 {
        let t = trimmed(s);
        let (a, b) = choose|before: Seq<char>, after: Seq<char>|
            s == #[trigger] (before + t + after) && blank_text(before) && blank_text(after);
        assert forall|i: int| 0 <= i < s.len() implies white_space(#[trigger] s[i]) by {
            if i < a.len() {
                assert(s[i] == a[i]);
            } else {
                assert(s[i] == b[i - a.len()]);
            }
        }
    }
}

/// The result of an action is green exactly where it ran and succeeded, and red
/// otherwise; its title names the repository.
pub proof fn law_result_of_an_action(popup: ActionPopupView)
    ensures
        (action_border_of(popup) == Color::Green) == (popup.outcome is Some
            && popup.outcome->0.success),
        (action_border_of(popup) == Color::Red) == !(popup.outcome is Some
            && popup.outcome->0.success),
        has(action_title_text(popup), popup.repo_label),
        has(action_title_text(popup), popup.kind.label_text()),
{
    reveal_strlit(" ");
    reveal_strlit(" ⚙  ");
    let title = action_title_text(popup);
    let label = popup.repo_label;
    let kind = popup.kind.label_text();
    let at = title.len() - 1 - label.len();
    assert(title.subrange(at, at + label.len()) =~= label);
    assert(occurs_at(title, label, at));
    assert(title.subrange(4, 4 + kind.len() as int) =~= kind);
    assert(occurs_at(title, kind, 4));
}

/// The result of an action that ran tells its command and whether it succeeded, and
/// then, under its name, each output that says something; where neither does, that
/// there was none. One that did not run tells why.
pub proof fn law_body_of_an_action(popup: ActionPopupView)
    ensures
        ({
            let body = action_body(popup);
            let n = body.len() as int;
            &&& popup.outcome is None ==> n == 4 && occurs_at(body[1][0].text, popup.error, 5)
            &&& popup.outcome is Some ==> {
                let o = popup.outcome->0;
                let a: int = if says_something(o.stdout) {
                    1 + text_lines(o.stdout).len() as int
                } else {
                    0
                };
                let b: int = if says_something(o.stderr) {
                    1 + text_lines(o.stderr).len() as int
                } else {
                    0
                };
                let gap: int = if a > 0 && b > 0 {
                    1
                } else {
                    0
                };
                let silence: int = if a == 0 && b == 0 {
                    1
                } else {
                    0
                };
                &&& n == 3 + a + gap + b + silence + 2
                &&& occurs_at(body[0][1].text, o.command, 2)
                &&& body[1][0].color == Some(
                    if o.success {
                        Color::Green
                    } else {
                        Color::Red
                    },
                )
                &&& a > 0 ==> body[3][0].text == "  stdout:"@ && body.subrange(4, 3 + a)
                    == output_lines(o.stdout)
                &&& b > 0 ==> body[3 + a + gap][0].text == "  stderr:"@ && body.subrange(
                    4 + a + gap,
                    3 + a + gap + b,
                ) == output_lines(o.stderr)
                &&& silence > 0 ==> body[3][0].text == "  (no output)"@
            }
        }),
{
    reveal_strlit("  ⚠  ");
    reveal_strlit("$ ");
    let body = action_body(popup);
    match popup.outcome {
        None => {
            let text = body[1][0].text;
            assert(text.subrange(5, 5 + popup.error.len() as int) =~= popup.error);
        },
        Some(o) => {
            let text = body[0][1].text;
            assert(text.subrange(2, 2 + o.command.len() as int) =~= o.command);
            let a: int = if says_something(o.stdout) {
                1 + text_lines(o.stdout).len() as int
            } else {
                0
            };
            let b: int = if says_something(o.stderr) {
                1 + text_lines(o.stderr).len() as int
            } else {
                0
            };
            let gap: int = if a > 0 && b > 0 {
                1
            } else {
                0
            };
            if a > 0 {
                assert(body.subrange(4, 3 + a) =~= output_lines(o.stdout));
            }
            if b > 0 {
                assert(body.subrange(4 + a + gap, 3 + a + gap + b) =~= output_lines(o.stderr));
            }
        },
    }
}

/// The list scrolls no further than it must: the marked item is always in view, and
/// the list stays at its top as long as it can.
pub proof fn law_scrolling(cursor: int, height: int)
    requires
        cursor >= 0,
        height > 0,
    ensures
        ({
            let top = scroll_top(cursor, height);
            &&& 0 <= top <= cursor < top + height
            &&& cursor < height ==> top == 0
            &&& top > 0 ==> cursor == top + height - 1
        }),
{
}

/// What is in view are the items from the first one on, as many as there is room for,
/// each with the mark exactly where it is the marked one.
pub proof fn law_items_in_view(
    items: Seq<PickerItemView>,
    matches: Seq<usize>,
    cursor: int,
    height: int,
)
    requires
        0 <= cursor < matches.len(),
        height > 0,
    ensures
        ({
            let top = scroll_top(cursor, height);
            let shown = in_view(items, matches, cursor, height);
            &&& 0 < shown.len() <= height
            &&& shown.len() == height || top + shown.len() == matches.len()
            &&& cursor - top < shown.len()
            &&& forall|k: int|
                0 <= k < shown.len() ==> #[trigger] shown[k] == item_line(
                    items[matches[top + k] as int],
                    top + k == cursor,
                )
        }),
{
}

/// The line of an item tells its number, its title and its labels, where it has any,
/// and begins with the mark exactly where it is the marked one.
pub proof fn law_line_of_an_item(item: PickerItemView, marked: bool)
    ensures
        ({
            let line = item_line(item, marked);
            let n = decimal(item.number as nat).len() as int;
            &&& line[0].text.contains('▶') == marked
            &&& line[1].text[0] == '#'
            &&& is_number(line[1].text.subrange(1, n + 1))
            &&& number_read(line[1].text.subrange(1, n + 1)) == item.number
            &&& line[2].text == item.title
            &&& line.len() == (if item.labels.len() > 0 {
                4int
            } else {
                3
            })
            &&& item.labels.len() > 0 ==> occurs_at(line[3].text, joined(item.labels, ","@), 3)
        }),
{
    reveal_strlit(" ▶ ");
    reveal_strlit("   ");
    reveal_strlit("#");
    reveal_strlit("  [");
    let line = item_line(item, marked);
    let digits = decimal(item.number as nat);
    law_decimal_reads_back(item.number as nat);
    law_columns(digits, 5);
    let text = line[1].text;
    let n = digits.len() as int;
    assert(text[0] == "#"@[0]);
    assert forall|i: int| 0 <= i < n implies text.subrange(1, n + 1)[i] == digits[i] by {
        assert(left_aligned(digits, 5).take(n)[i] == digits[i]);
    }
    assert(text.subrange(1, n + 1) =~= digits);
    assert(" ▶ "@[1] == '▶');
    assert("   "@[0] == ' ' && "   "@[1] == ' ' && "   "@[2] == ' ');
    if item.labels.len() > 0 {
        let all = joined(item.labels, ","@);
        assert(line[3].text.subrange(3, 3 + all.len() as int) =~= all);
    }
}

/// The title of a picker tells what it offers and of which repository.
pub proof fn law_title_of_a_picker(picker: PickerView)
    ensures
        has(picker_title_text(picker), picker.kind.title_text()),
        has(picker_title_text(picker), picker.repo_label),
{
    reveal_strlit(" ");
    reveal_strlit("  ");
    reveal_strlit("🐛");
    reveal_strlit("🔀");
    let title = picker_title_text(picker);
    let kind = picker.kind.title_text();
    let label = picker.repo_label;
    assert(title.subrange(4, 4 + kind.len() as int) =~= kind);
    assert(occurs_at(title, kind, 4));
    let at = title.len() - 1 - label.len();
    assert(title.subrange(at, at + label.len()) =~= label);
    assert(occurs_at(title, label, at));
}

/// The spinner has ten frames, and no two next to each other look alike.
pub proof fn law_spinner(i: int)
    ensures
        spinner_frames().len() == 10,
        0 <= i < 10 ==> spinner_frames()[i] != spinner_frames()[(i + 1) % 10],
{
    reveal_strlit("⠋");
    reveal_strlit("⠙");
    reveal_strlit("⠹");
    reveal_strlit("⠸");
    reveal_strlit("⠼");
    reveal_strlit("⠴");
    reveal_strlit("⠦");
    reveal_strlit("⠧");
    reveal_strlit("⠇");
    reveal_strlit("⠏");
    assert("⠋"@[0] == '⠋' && "⠙"@[0] == '⠙' && "⠹"@[0] == '⠹' && "⠸"@[0] == '⠸' && "⠼"@[0] == '⠼'
        && "⠴"@[0] == '⠴' && "⠦"@[0] == '⠦' && "⠧"@[0] == '⠧' && "⠇"@[0] == '⠇' && "⠏"@[0] == '⠏');
}

/// The help has a section for each kind of key, with a heading and a line for each key,
/// and an empty line between each two.
pub proof fn law_help()
    ensures
        ({
            let a = navigation_keys().len() as int;
            let b = picker_keys().len() as int;
            let c = action_keys().len() as int;
            let d = quit_keys().len() as int;
            &&& help().len() == a + b + c + d + 7
            &&& help().subrange(0, a + 1) == section_lines("Navigation"@, navigation_keys())
            &&& help().subrange(a + 2, a + b + 3) == section_lines(
                "Pickers & Browser"@,
                picker_keys(),
            )
            &&& help().subrange(a + b + 4, a + b + c + 5) == section_lines(
                "Repo actions"@,
                action_keys(),
            )
            &&& help().subrange(a + b + c + 6, a + b + c + d + 7) == section_lines(
                "Quit"@,
                quit_keys(),
            )
        }),
        navigation_keys().contains(("g"@, "jump to top"@)),
        navigation_keys().contains(("G"@, "jump to bottom"@)),
        action_keys().contains(("f"@, "fetch (jj git fetch / git fetch)"@)),
        action_keys().contains(("P"@, "push (jj git push / git push)"@)),
        quit_keys().contains(("? / F1"@, "toggle this help"@)),
        quit_keys().contains(("q / Esc"@, "quit"@)),
        quit_keys().contains(("Ctrl-C"@, "quit"@)),
{
    let a = navigation_keys().len() as int;
    let b = picker_keys().len() as int;
    let c = action_keys().len() as int;
    let d = quit_keys().len() as int;
    law_section("Navigation"@, navigation_keys());
    law_section("Pickers & Browser"@, picker_keys());
    law_section("Repo actions"@, action_keys());
    law_section("Quit"@, quit_keys());
    assert(help().subrange(0, a + 1) =~= section_lines("Navigation"@, navigation_keys()));
    assert(help().subrange(a + 2, a + b + 3) =~= section_lines(
        "Pickers & Browser"@,
        picker_keys(),
    ));
    assert(help().subrange(a + b + 4, a + b + c + 5) =~= section_lines(
        "Repo actions"@,
        action_keys(),
    ));
    assert(help().subrange(a + b + c + 6, a + b + c + d + 7) =~= section_lines(
        "Quit"@,
        quit_keys(),
    ));
    assert(navigation_keys()[2] == ("g"@, "jump to top"@));
    assert(navigation_keys()[3] == ("G"@, "jump to bottom"@));
    assert(action_keys()[0] == ("f"@, "fetch (jj git fetch / git fetch)"@));
    assert(action_keys()[1] == ("P"@, "push (jj git push / git push)"@));
    assert(quit_keys()[0] == ("? / F1"@, "toggle this help"@));
    assert(quit_keys()[1] == ("q / Esc"@, "quit"@));
    assert(quit_keys()[2] == ("Ctrl-C"@, "quit"@));
}

/// What a picker that is loading says tells what it is loading.
pub proof fn law_what_is_fetched(a: PickerKind, b: PickerKind)
    ensures
        (fetching(a) == fetching(b)) == (a == b),
        has(fetching(PickerKind::Issues), "issues"@),
        has(fetching(PickerKind::Prs), "pull requests"@),
{
    reveal_strlit("fetching issues…");
    reveal_strlit("fetching pull requests…");
    reveal_strlit("issues");
    reveal_strlit("pull requests");
    let x = fetching(PickerKind::Issues);
    let y = fetching(PickerKind::Prs);
    assert(x.len() != y.len());
    assert(x.subrange(9, 15) =~= "issues"@);
    assert(occurs_at(x, "issues"@, 9));
    assert(y.subrange(9, 22) =~= "pull requests"@);
    assert(occurs_at(y, "pull requests"@, 9));
}

} // verus!
