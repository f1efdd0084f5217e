use shoka::actions::{ActionKind, ActionOutcome, VcsKind};
use shoka::commands::tui::app::{ActionPopup, App, Mode};
use shoka::commands::tui::picker::{Picker, PickerKind};
use shoka::commands::tui::popups::{
    action_border, action_lines, action_title, centered_share, error_lines, filter_line,
    help_lines, item_list, loading_lines, picker_footer, picker_title, spinner_frame,
};
use shoka::commands::tui::rows::DashRow;
use shoka::commands::tui::screen::{
    activity_cell, footer_line, gh_cells, header_spans, status_cells, style_activity,
    style_ahead_behind, style_ci, style_dirty, style_pr, table_row, Color, Span,
};
use shoka::gh::{CiStatus, GhSnapshot, PickerItem};
use shoka::git_status::GitStatusSnapshot;

fn text(line: &[Span]) -> String {
    line.iter().map(|s| s.text.as_str()).collect()
}

fn texts(lines: &[Vec<Span>]) -> Vec<String> {
    lines.iter().map(|l| text(l)).collect()
}

#[test]
fn gh_cells_renders_dashes_when_snapshot_missing() {
    let (pr, ci) = gh_cells(None);
    assert_eq!(pr, "-");
    assert_eq!(ci, "-");
}

#[test]
fn gh_cells_renders_count_and_status_glyph() {
    let snap = GhSnapshot {
        open_pr_count: Some(5),
        ci_status: Some(CiStatus::Success),
        weekly_commits: None,
    };
    let (pr, ci) = gh_cells(Some(&snap));
    assert_eq!(pr, "5");
    assert_eq!(ci, "✓");
}

#[test]
fn gh_cells_clamps_pr_count_at_99_plus() {
    let snap = GhSnapshot {
        open_pr_count: Some(150),
        ci_status: None,
        weekly_commits: None,
    };
    let (pr, _) = gh_cells(Some(&snap));
    assert_eq!(pr, "99+");
}

#[test]
fn gh_cells_distinguishes_zero_from_none() {
    let zero = GhSnapshot {
        open_pr_count: Some(0),
        ci_status: None,
        weekly_commits: None,
    };
    let (pr_zero, _) = gh_cells(Some(&zero));
    let (pr_none, _) = gh_cells(None);
    assert_eq!(pr_zero, "0");
    assert_eq!(pr_none, "-");
    assert_ne!(pr_zero, pr_none);
}

#[test]
fn gh_cells_renders_each_ci_status() {
    for (status, expected) in [
        (CiStatus::Success, "✓"),
        (CiStatus::Failure, "✗"),
        (CiStatus::Pending, "◐"),
        (CiStatus::Skipped, "○"),
        (CiStatus::Other, "!"),
    ] {
        let snap = GhSnapshot {
            open_pr_count: None,
            ci_status: Some(status),
            weekly_commits: None,
        };
        let (_, ci) = gh_cells(Some(&snap));
        assert_eq!(ci, expected, "ci glyph for {status:?}");
    }
}

fn snap(
    branch: &str,
    ahead: Option<usize>,
    behind: Option<usize>,
    dirty: bool,
) -> GitStatusSnapshot {
    GitStatusSnapshot {
        branch: Some(branch.into()),
        dirty,
        ahead,
        behind,
    }
}

#[test]
fn status_cells_renders_unknown_for_missing_snapshot() {
    let (b, ab, d) = status_cells(None);
    assert_eq!(b, "?");
    assert_eq!(ab, "?");
    assert_eq!(d, "?");
}

#[test]
fn status_cells_renders_clean_branch_with_equal_marker() {
    let s = snap("main", Some(0), Some(0), false);
    let (b, ab, d) = status_cells(Some(&s));
    assert_eq!(b, "main");
    assert_eq!(ab, "=");
    assert_eq!(d, "✓");
}

#[test]
fn status_cells_renders_ahead_only_and_behind_only() {
    let (_, ab_ahead, _) = status_cells(Some(&snap("x", Some(3), Some(0), false)));
    assert_eq!(ab_ahead, "↑3");
    let (_, ab_behind, _) = status_cells(Some(&snap("x", Some(0), Some(2), false)));
    assert_eq!(ab_behind, "↓2");
}

#[test]
fn status_cells_renders_diverged_with_both_arrows() {
    let (_, ab, _) = status_cells(Some(&snap("x", Some(2), Some(5), false)));
    assert_eq!(ab, "↑2 ↓5");
}

#[test]
fn status_cells_renders_dash_when_upstream_unknown() {
    let (_, ab, _) = status_cells(Some(&snap("x", None, None, false)));
    assert_eq!(ab, "-");
}

#[test]
fn status_cells_renders_dirty_glyph() {
    let (_, _, d) = status_cells(Some(&snap("x", Some(0), Some(0), true)));
    assert_eq!(d, "●");
}

#[test]
fn cells_are_coloured_by_what_they_say() {
    assert_eq!(style_ahead_behind("=").color, Some(Color::Overlay));
    assert_eq!(style_ahead_behind("↑1 ↓2").color, Some(Color::Mauve));
    assert_eq!(style_ahead_behind("↑1").color, Some(Color::Green));
    assert_eq!(style_ahead_behind("↓1").color, Some(Color::Yellow));
    assert_eq!(style_ahead_behind("").color, Some(Color::Overlay));
    assert_eq!(style_dirty("✓").color, Some(Color::Green));
    assert_eq!(style_dirty("●").color, Some(Color::Peach));
    assert_eq!(style_dirty("?").color, Some(Color::Overlay));
    assert!(!style_pr("0").bold);
    assert!(!style_pr("-").bold);
    assert!(style_pr("3").bold);
    assert_eq!(style_pr("3").color, Some(Color::Pink));
    assert_eq!(style_ci("✓").color, Some(Color::Green));
    assert_eq!(style_ci("✗").color, Some(Color::Red));
    assert_eq!(style_ci("!").color, Some(Color::Red));
    assert_eq!(style_ci("◐").color, Some(Color::Yellow));
    assert_eq!(style_ci("○").color, Some(Color::Overlay));
    assert_eq!(Color::Mauve.rgb(), (0xcb, 0xa6, 0xf7));
    assert_eq!(Color::Base.rgb(), (0x1e, 0x1e, 0x2e));
}

fn dash(slug: &str) -> DashRow {
    DashRow {
        slug: slug.into(),
        owner: "u".into(),
        path: "/w".into(),
        search_key: format!("{slug} /w"),
        tags_display: "rust".into(),
        status: None,
        gh: None,
    }
}

#[test]
fn header_counts_and_tells_scope_and_filter() {
    let mut app = App::new(vec![dash("a"), dash("b")], vec![]);
    assert_eq!(
        text(&header_spans(&app, "1.2.3")),
        " ✦ shoka v1.2.3  📚 2 / 2 repo(s)"
    );
    app.filter = "a".into();
    app.refilter();
    assert_eq!(
        text(&header_spans(&app, "1.2.3")),
        " ✦ shoka v1.2.3  📚 1 / 2 repo(s)  ◇ /a"
    );
    let mut mine = App::new(vec![dash("a")], vec!["u".into()]);
    assert!(text(&header_spans(&mine, "1")).ends_with("  ◇ mine"));
    mine.toggle_mine_only();
    assert!(text(&header_spans(&mine, "1")).ends_with("  ◇ all"));
}

#[test]
fn table_rows_are_striped() {
    let app = App::new(vec![dash("a"), dash("b")], vec![]);
    let first = table_row(&app, 0);
    assert_eq!(first.background, Color::Base);
    assert_eq!(table_row(&app, 1).background, Color::Mantle);
    assert_eq!(
        texts(&first.cells),
        vec![" a", "?", "?", "?", "-", "-", "-", "/w", "rust"]
    );
}

#[test]
fn activity_is_shown_against_the_busiest_week() {
    let snap = |weeks: Option<Vec<u32>>| GhSnapshot {
        open_pr_count: Some(0),
        ci_status: None,
        weekly_commits: weeks,
    };
    let cell = |weeks: Vec<u32>| activity_cell(Some(&snap(Some(weeks))));
    assert_eq!(activity_cell(None), "-");
    assert_eq!(activity_cell(Some(&snap(None))), "-");
    assert_eq!(cell(vec![0, 0, 0]), "▁▁▁");
    assert_eq!(cell(vec![0, 1, 2, 3, 4, 5, 6, 7]), "▁▂▃▄▅▆▇█");
    assert_eq!(cell(vec![0, 100, 50]), "▁█▄");
    assert_eq!(cell(vec![u32::MAX, 1]), "█▁");
    assert_eq!(style_activity("-").color, Some(Color::Overlay));
    assert_eq!(style_activity("▁█").color, Some(Color::Green));
}

#[test]
fn footer_hints_at_the_keys() {
    let mut app = App::new(vec![dash("a")], vec![]);
    assert_eq!(
        text(&footer_line(&app)),
        " [j/k]move [/]filter [⏎]cd [i]iss [p]PR [f]fetch [P]push [y]yank [o]open [?]help [q]quit"
    );
    app.mode = Mode::Filter;
    assert_eq!(
        text(&footer_line(&app)),
        " [type]filter [⌫]del [⏎]accept [esc]clear"
    );
    app.status_message = Some("done".into());
    assert_eq!(text(&footer_line(&app)), " ✦ done");
    let mine = App::new(vec![dash("a")], vec!["u".into()]);
    assert!(text(&footer_line(&mine)).contains(" [m]all "));
}

#[test]
fn help_is_aligned_per_section() {
    let lines = texts(&help_lines());
    assert_eq!(lines[0], "  ✦ Navigation");
    assert_eq!(lines[1], "    j / ↓  move down");
    assert_eq!(lines[3], "        g  jump to top");
    assert_eq!(lines[8], "");
    assert_eq!(lines[9], "  ✦ Pickers & Browser");
    assert_eq!(lines.last().unwrap(), "     Ctrl-C  quit");
    assert_eq!(lines.len(), 4 + 16 + 3);
}

#[test]
fn popups_are_centred() {
    assert_eq!(centered_share(62), (19, 62));
    assert_eq!(centered_share(80), (10, 80));
    assert_eq!(centered_share(120), (0, 100));
}

fn popup(success: bool, stdout: &str, stderr: &str) -> ActionPopup {
    ActionPopup {
        kind: ActionKind::Fetch,
        repo_label: "r".into(),
        outcome: Some(ActionOutcome {
            success,
            stdout: stdout.into(),
            stderr: stderr.into(),
            vcs: VcsKind::Git,
            command: "git fetch".into(),
        }),
        error: String::new(),
    }
}

#[test]
fn result_of_an_action_is_told() {
    let both = popup(true, "a\r\nb\n", "warn");
    assert_eq!(action_title(&both), " ⚙  fetch — r ");
    assert_eq!(action_border(&both), Color::Green);
    assert_eq!(
        texts(&action_lines(&both)),
        vec![
            "  git $ git fetch",
            "  ✓ success",
            "",
            "  stdout:",
            "    a",
            "    b",
            "",
            "  stderr:",
            "    warn",
            "",
            "  press any key to close",
        ]
    );
    let silent = popup(false, " \n", "");
    assert_eq!(action_border(&silent), Color::Red);
    assert_eq!(
        texts(&action_lines(&silent))[1..4],
        ["  ✗ failed", "", "  (no output)"]
    );
    let failed = ActionPopup {
        kind: ActionKind::Push,
        repo_label: "r".into(),
        outcome: None,
        error: "no .jj".into(),
    };
    assert_eq!(action_border(&failed), Color::Red);
    assert_eq!(
        texts(&action_lines(&failed)),
        vec!["", "  ⚠  no .jj", "", "  press any key to close"]
    );
}

#[test]
fn spinner_turns_with_the_time() {
    assert_eq!(spinner_frame(0), "⠋");
    assert_eq!(spinner_frame(79), "⠋");
    assert_eq!(spinner_frame(80), "⠙");
    assert_eq!(spinner_frame(719), "⠇");
    assert_eq!(spinner_frame(720), "⠏");
    assert_eq!(spinner_frame(800), "⠋");
    assert_eq!(
        texts(&loading_lines(PickerKind::Prs, 160)),
        vec!["", "  ⠹  fetching pull requests…", "", "  esc / q to cancel"]
    );
    assert_eq!(
        texts(&error_lines("down")),
        vec!["", "  ⚠  down", "", "  esc / q to close"]
    );
}

fn item(number: u64, labels: &[&str]) -> PickerItem {
    PickerItem {
        number,
        title: format!("t{number}"),
        html_url: String::new(),
        labels: labels.iter().map(|l| l.to_string()).collect(),
    }
}

#[test]
fn list_scrolls_with_the_mark() {
    let items = vec![item(1, &[]), item(22, &["bug", "p1"]), item(333, &[])];
    let list = item_list(&items, &vec![0, 1, 2], 0, 2);
    assert_eq!(
        texts(&list.lines),
        vec![" ▶ #1      t1", "   #22     t22  [bug,p1]"]
    );
    assert_eq!(list.marked, Some(0));
    let list = item_list(&items, &vec![0, 1, 2], 2, 2);
    assert_eq!(
        texts(&list.lines),
        vec!["   #22     t22  [bug,p1]", " ▶ #333    t333"]
    );
    assert_eq!(list.marked, Some(1));
    let none = item_list(&items, &vec![], 0, 2);
    assert_eq!(texts(&none.lines), vec!["  (no matches)"]);
    assert_eq!(none.marked, None);
}

#[test]
fn picker_is_titled_by_kind_and_repository() {
    let picker = Picker::loading(PickerKind::Issues, "github.com/x/y".into());
    assert_eq!(picker_title(&picker), " 🐛  Issues — github.com/x/y ");
    assert_eq!(text(&filter_line("bu")), "  / bu▌");
    assert_eq!(
        text(&picker_footer()),
        " [j/k]move [type]filter [⏎]open [esc]close"
    );
}
