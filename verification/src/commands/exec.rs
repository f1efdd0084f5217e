//! `shoka exec`: one command in every matching repository.
use vstd::prelude::*;
use vstd::string::*;

use crate::cli::ExecArgs;
use crate::config::{ConfigError, ResolvedConfig};
use crate::seqs::views;
use crate::state::{RepoView, Shelf};
use crate::text::{
    decimal, decimal_of, has, join, joined, law_signed_decimal_reads_back, lemma_stands_at_an_end,
    lemma_stands_between, lemma_told_in_order, no_trailing_newline, number_read, occurs_at,
    opt_text, signed_decimal, signed_decimal_of, texts, trim_newlines,
};

verus! {

/// Where the command is run.
#[derive(Debug)]
pub struct Target {
    pub slug: String,
    pub path: String,
}

impl Clone for Target {
    fn clone(&self) -> (r: Self)
        ensures
            r == *self,
    {
        Target { slug: self.slug.clone(), path: self.path.clone() }
    }
}

/// What came of the command in one repository.
#[derive(Debug)]
pub struct Outcome {
    pub target: Target,
    /// Absent when a signal ended the command.
    pub exit_code: Option<i32>,
    /// Standard output, and standard error after it.
    pub combined: Vec<u8>,
    /// Why the command could not be run at all.
    pub setup_error: Option<String>,
}

impl Outcome {
    /// The command could not be run.
    pub fn with_setup_error(target: Target, msg: &str) -> (r: Self)
        ensures
            r.target == target,
            r.exit_code is None,
            r.combined@ == Seq::<u8>::empty(),
            opt_text(r.setup_error) == Some(msg@),
    {
        Outcome {
            target,
            exit_code: None,
            combined: Vec::new(),
            setup_error: Some(msg.to_owned()),
        }
    }

    /// The command ran and exited with zero.
    pub open spec fn succeeded(self) -> bool {
        self.setup_error is None && self.exit_code == Some(0i32)
    }

    /// Whether the command ran and exited with zero.
    pub fn is_success(&self) -> (r: bool)
        ensures
            r == self.succeeded(),
            r == (self.exit_code == Some(0i32) && self.setup_error is None),
    {
        match (&self.setup_error, self.exit_code) {
            (None, Some(code)) => code == 0,
            _ => false,
        }
    }

    /// How the outcome is told in one word.
    pub open spec fn status(self) -> Seq<char> {
        if self.setup_error is Some {
            "ERR"@
        } else if self.exit_code is None {
            "signal"@
        } else if self.exit_code->0 == 0 {
            "ok"@
        } else {
            "exit "@ + signed_decimal(self.exit_code->0 as int)
        }
    }

    /// How the outcome is told in one word.
    pub fn status_text(&self) -> (r: String)
        ensures
            r@ == self.status(),
    {
        match (&self.setup_error, self.exit_code) {
            (Some(_), _) => "ERR".to_owned(),
            (None, None) => "signal".to_owned(),
            (None, Some(code)) => {
                if code == 0 {
                    "ok".to_owned()
                } else {
                    "exit ".to_owned().concat(signed_decimal_of(code).as_str())
                }
            },
        }
    }
}

/// How an outcome is reported.
#[derive(Debug)]
pub struct Report {
    pub slug: String,
    pub status: String,
    pub success: bool,
    /// What went wrong before the command, in place of its output.
    pub error: Option<String>,
    /// The output, unless there is none.
    pub body: Option<String>,
}

/// How an outcome is reported, given its output as text: a banner, then either
/// what went wrong or the output without the newlines at its end.
pub fn print_outcome(o: &Outcome, output: &str) -> (r: Report)
    ensures
        r.slug@ == o.target.slug@,
        r.status@ == o.status(),
        r.success == o.succeeded(),
        r.success == (o.exit_code == Some(0i32) && o.setup_error is None),
        opt_text(r.error) == opt_text(o.setup_error),
        opt_text(r.body) == (if o.setup_error is Some || o.combined@.len() == 0
            || no_trailing_newline(output@).len() == 0 {
            None
        } else {
            Some(no_trailing_newline(output@))
        }),
{
    let slug = o.target.slug.clone();
    let status = o.status_text();
    let success = o.is_success();
    match &o.setup_error {
        Some(e) => Report { slug, status, success, error: Some(e.clone()), body: None },
        None => {
            let text = trim_newlines(output);
            let body = if o.combined.len() == 0 || text.as_str().is_empty() {
                None
            } else {
                Some(text)
            };
            Report { slug, status, success, error: None, body }
        },
    }
}

/// How running the command ended.
#[derive(Debug)]
pub enum RunEvent {
    /// It could not be started.
    NotStarted(String),
    /// It ended; without an exit code, by a signal.
    Ended { code: Option<i32>, stdout: Vec<u8>, stderr: Vec<u8> },
}

/// What is said of a repository whose checkout is gone.
pub const STALE_ENTRY: &'static str =
    "clone path does not exist (stale shelf entry — try `shoka prune`)";

/// Whether the command is to be run in a repository: only where its path is a
/// directory.
pub fn check_target(target: Target, is_dir: bool) -> (r: Result<Target, Outcome>)
    ensures
        match r {
            Ok(t) => is_dir && t == target,
            Err(o) => !is_dir && o.target == target && opt_text(o.setup_error) == Some(STALE_ENTRY@)
                && o.exit_code is None && o.combined@.len() == 0,
        },
{
    if is_dir {
        Ok(target)
    } else {
        Err(Outcome::with_setup_error(target, STALE_ENTRY))
    }
}

/// What came of the command in one repository.
pub fn run_one(target: Target, event: RunEvent) -> (r: Outcome)
    ensures
        r.target == target,
        match event {
            RunEvent::NotStarted(e) => r.exit_code is None && r.combined@.len() == 0 && opt_text(
                r.setup_error,
            ) == Some("spawn failed: "@ + e@),
            RunEvent::Ended { code, stdout, stderr } => r.exit_code == code && r.combined@
                == stdout@ + stderr@ && r.setup_error is None,
        },
        r.succeeded() == (event matches RunEvent::Ended { code: Some(c), .. } && c == 0),
{
    match event {
        RunEvent::NotStarted(e) => Outcome::with_setup_error(
            target,
            "spawn failed: ".to_owned().concat(e.as_str()).as_str(),
        ),
        RunEvent::Ended { code, stdout, stderr } => {
            let mut combined = stdout;
            let mut tail = stderr;
            combined.append(&mut tail);
            Outcome { target, exit_code: code, combined, setup_error: None }
        },
    }
}

/// Why nothing was run, or the run counts as failed.
#[derive(Debug)]
pub enum ExecError {
    /// No command was given.
    NoCommand,
    /// A status filter was given.
    Filter,
    /// There is nothing on the shelf.
    EmptyShelf,
    /// A repository's path does not render.
    Path { slug: String, error: ConfigError },
    /// No row carries the wanted tags; holds the number of rows.
    NoTagMatch(usize),
    /// The command failed in some repositories.
    Failed { failures: usize, total: usize },
}

impl ExecError {
    /// The text of the message.
    pub open spec fn text(self) -> Seq<char> {
        match self {
            ExecError::NoCommand =>
                "no command — pass it after `--`, e.g. `shoka exec --tag rust -- cargo check`"@,
            ExecError::Filter =>
                "`--filter` requires the cache status snapshot which lands in Phase 2; for now use `--tag` to narrow the run, or filter externally with `shoka list`"@,
            ExecError::EmptyShelf =>
                "shelf is empty — nothing to run against. `shoka clone <url>` or `shoka import <dir>` first"@,
            ExecError::Path { slug, error } => "resolving clone path for "@ + slug@ + ": "@
                + error.text(),
            ExecError::NoTagMatch(n) => "no repos matched the tag filter ("@ + decimal(n as nat)
                + " on the shelf total)"@,
            ExecError::Failed { failures, total } => decimal(failures as nat) + " of "@ + decimal(
                total as nat,
            ) + " repo(s) failed — see the per-repo blocks above"@,
        }
    }

    /// The message shown to the user.
    pub fn message(&self) -> (r: String)
        ensures
            r@ == self.text(),
    {
        match self {
            ExecError::NoCommand => "no command — pass it after `--`, e.g. `shoka exec --tag rust -- cargo check`".to_owned(),
            ExecError::Filter => "`--filter` requires the cache status snapshot which lands in Phase 2; for now use `--tag` to narrow the run, or filter externally with `shoka list`".to_owned(),
            ExecError::EmptyShelf => "shelf is empty — nothing to run against. `shoka clone <url>` or `shoka import <dir>` first".to_owned(),
            ExecError::Path { slug, error } => "resolving clone path for ".to_owned().concat(
                slug.as_str(),
            ).concat(": ").concat(error.message().as_str()),
            ExecError::NoTagMatch(n) => "no repos matched the tag filter (".to_owned().concat(
                decimal_of(*n as u64).as_str(),
            ).concat(" on the shelf total)"),
            ExecError::Failed { failures, total } => decimal_of(*failures as u64).concat(
                " of ",
            ).concat(decimal_of(*total as u64).as_str()).concat(
                " repo(s) failed — see the per-repo blocks above",
            ),
        }
    }
}

/// The targets of some rows, in order, each where its row may live.
pub open spec fn targets_of(
    config: ResolvedConfig,
    rows: Seq<RepoView>,
    targets: Seq<Target>,
) -> bool {
    &&& targets.len() == rows.len()
    &&& forall|i: int|
        0 <= i < rows.len() ==> (#[trigger] targets[i]).slug@ == rows[i].slug()
            && config.may_live_at(rows[i], targets[i].path@)
}

/// The path of the row at this position fails to render with `error`, and those
/// of the rows before it do not.
pub open spec fn fails_first_at(
    config: ResolvedConfig,
    rows: Seq<RepoView>,
    slug: Seq<char>,
    error: ConfigError,
    i: int,
) -> bool {
    &&& 0 <= i < rows.len()
    &&& rows[i].slug() == slug
    &&& config.may_fail_with(rows[i], error)
    &&& forall|j: int| 0 <= j < i ==> config.may_render(#[trigger] rows[j])
}

/// The first path that does not render is that of a row with this slug, and the
/// reason is `error`.
pub open spec fn path_fails(
    config: ResolvedConfig,
    rows: Seq<RepoView>,
    slug: Seq<char>,
    error: ConfigError,
) -> bool {
    exists|i: int| #[trigger] fails_first_at(config, rows, slug, error, i)
}

/// The matching repositories, in shelf order, with their paths; or the first
/// path that does not render.
pub fn resolve_targets(shelf: &Shelf, resolved: &ResolvedConfig, args: &ExecArgs) -> (r: Result<
    Vec<Target>,
    ExecError,
>)
    ensures
        match r {
            Ok(v) => targets_of(*resolved, shelf@.tagged(texts(args.tags@)), v@),
            Err(e) => e matches ExecError::Path { slug, error } && path_fails(
                *resolved,
                shelf@.tagged(texts(args.tags@)),
                slug@,
                error,
            ),
        },
{
    let rows = shelf.filter_by_tags(&args.tags);
    let ghost rows_seen = views(rows@);
    let mut out: Vec<Target> = Vec::new();
    let mut i: usize = 0;
    while i < rows.len()
        invariant
            rows_seen == views(rows@),
            rows_seen == shelf@.tagged(texts(args.tags@)),
            i <= rows@.len(),
            out@.len() == i,
            forall|j: int|
                0 <= j < i ==> (#[trigger] out@[j]).slug@ == rows_seen[j].slug()
                    && resolved.may_live_at(rows_seen[j], out@[j].path@),
        decreases rows@.len() - i,
    {
        let repo = rows[i];
        assert(rows_seen[i as int] == repo@);
        match resolved.clone_path_for(repo) {
            Ok(path) => {
                out.push(Target { slug: repo.slug(), path });
            },
            Err(error) => {
                proof {
                    assert forall|j: int| 0 <= j < i implies resolved.may_render(
                        #[trigger] rows_seen[j],
                    ) by {
                        assert(resolved.may_live_at(rows_seen[j], out@[j].path@));
                    }
                    assert(fails_first_at(
                        *resolved,
                        rows_seen,
                        repo@.slug(),
                        error,
                        i as int,
                    ));
                }
                return Err(ExecError::Path { slug: repo.slug(), error });
            },
        }
        i = i + 1;
    }
    Ok(out)
}

/// Whether the arguments ask for something that can be run: a command, and no
/// status filter.
pub fn check_args(args: &ExecArgs) -> (r: Result<(), ExecError>)
    ensures
        if args.cmd@.len() == 0 {
            r matches Err(ExecError::NoCommand)
        } else if args.filter is Some {
            r matches Err(ExecError::Filter)
        } else {
            r is Ok
        },
{
    if args.cmd.len() == 0 {
        return Err(ExecError::NoCommand);
    }
    if args.filter.is_some() {
        return Err(ExecError::Filter);
    }
    Ok(())
}

/// What to run, and where. Refused without a command, with a status filter, on
/// an empty shelf, when a path does not render, and when no row matches, in
/// this order.
pub fn plan(shelf: &Shelf, resolved: &ResolvedConfig, args: &ExecArgs) -> (r: Result<
    Vec<Target>,
    ExecError,
>)
    ensures
        ({
            let rows = shelf@.tagged(texts(args.tags@));
            if args.cmd@.len() == 0 {
                r matches Err(ExecError::NoCommand)
            } else if args.filter is Some {
                r matches Err(ExecError::Filter)
            } else if shelf@.rows.len() == 0 {
                r matches Err(ExecError::EmptyShelf)
            } else {
                match r {
                    Ok(v) => rows.len() > 0 && targets_of(*resolved, rows, v@),
                    Err(ExecError::NoTagMatch(n)) => rows.len() == 0 && n == shelf@.rows.len(),
                    Err(ExecError::Path { slug, error }) => path_fails(
                        *resolved,
                        rows,
                        slug@,
                        error,
                    ),
                    Err(_) => false,
                }
            }
        }),
{
    match check_args(args) {
        Ok(_) => {},
        Err(e) => {
            return Err(e);
        },
    }
    if shelf.is_empty() {
        return Err(ExecError::EmptyShelf);
    }
    let targets = match resolve_targets(shelf, resolved, args) {
        Ok(v) => v,
        Err(e) => {
            return Err(e);
        },
    };
    if targets.len() == 0 {
        return Err(ExecError::NoTagMatch(shelf.len()));
    }
    Ok(targets)
}

/// A command as it is shown.
pub fn format_cmdline(cmd: &[String]) -> (r: String)
    ensures
        r@ == joined(texts(cmd@), " "@),
{
    join(cmd, " ")
}

/// The line that announces a run.
pub fn start_line(cmd: &[String], total: usize, concurrency: usize) -> (r: String)
    ensures
        r@ == "running `"@ + joined(texts(cmd@), " "@) + "` across "@ + decimal(total as nat)
            + " repo"@ + (if total == 1 {
            ""@
        } else {
            "s"@
        }) + " (concurrency "@ + decimal(concurrency as nat) + ")"@,
{
    "running `".to_owned().concat(format_cmdline(cmd).as_str()).concat("` across ").concat(
        decimal_of(total as u64).as_str(),
    ).concat(" repo").concat(
        if total == 1 {
            ""
        } else {
            "s"
        },
    ).concat(" (concurrency ").concat(decimal_of(concurrency as u64).as_str()).concat(")")
}

/// The number of outcomes without success.
pub open spec fn failures_in(outcomes: Seq<Option<Outcome>>) -> nat
    decreases outcomes.len(),
{
    if outcomes.len() == 0 {
        0
    } else {
        failures_in(outcomes.drop_last()) + (if outcomes.last() is Some
            && outcomes.last()->0.succeeded() {
            0nat
        } else {
            1nat
        })
    }
}

/// The number of repositories in which the command failed, where one whose
/// task broke off has no outcome.
pub fn count_failures(outcomes: &[Option<Outcome>]) -> (r: usize)
    ensures
        r == failures_in(outcomes@),
        r == outcomes@.filter(broke_off_or_failed()).len(),
        forall|i: int|
            0 <= i < outcomes@.len() && broke_off_or_failed()(#[trigger] outcomes@[i]) ==> r > 0,
{
    let mut failures: usize = 0;
    let mut i: usize = 0;
    while i < outcomes.len()
        invariant
            failures <= i <= outcomes@.len(),
            failures == failures_in(outcomes@.take(i as int)),
        decreases outcomes@.len() - i,
    {
        assert(outcomes@.take(i + 1).drop_last() =~= outcomes@.take(i as int));
        let ok = match &outcomes[i] {
            Some(o) => o.is_success(),
            None => false,
        };
        if !ok {
            failures = failures + 1;
        }
        i = i + 1;
    }
    assert(outcomes@.take(i as int) =~= outcomes@);
    proof {
        law_failures_are_counted(outcomes@);
    }
    failures
}

/// How a run ends: with a line when every repository succeeded, else with an
/// error, so that the program exits with a failure too.
pub fn summary(failures: usize, total: usize) -> (r: Result<String, ExecError>)
    ensures
        if failures == 0 {
            r matches Ok(line) && line@ == "all "@ + decimal(total as nat)
                + " repo(s) succeeded"@
        } else {
            r matches Err(ExecError::Failed { failures: f, total: t }) && f == failures && t
                == total
        },
{
    if failures == 0 {
        Ok("all ".to_owned().concat(decimal_of(total as u64).as_str()).concat(" repo(s) succeeded"))
    } else {
        Err(ExecError::Failed { failures, total })
    }
}

/// A run ends well exactly when the command succeeded in every repository.
pub proof fn law_run_ends_well_iff_all_succeed(outcomes: Seq<Option<Outcome>>)
    ensures
        failures_in(outcomes) <= outcomes.len(),
        failures_in(outcomes) == 0 <==> forall|i: int|
            0 <= i < outcomes.len() ==> (#[trigger] outcomes[i]) is Some
                && outcomes[i]->0.succeeded(),
    decreases outcomes.len(),
{
    if outcomes.len() > 0 {
        let front = outcomes.drop_last();
        law_run_ends_well_iff_all_succeed(front);
        if failures_in(outcomes) == 0 {
            assert forall|i: int| 0 <= i < outcomes.len() implies (#[trigger] outcomes[i]) is Some
                && outcomes[i]->0.succeeded() by {
                if i < front.len() {
                    assert(front[i] == outcomes[i]);
                }
            }
        }
        if forall|i: int|
            0 <= i < outcomes.len() ==> (#[trigger] outcomes[i]) is Some
                && outcomes[i]->0.succeeded() {
            assert forall|i: int| 0 <= i < front.len() implies (#[trigger] front[i]) is Some
                && front[i]->0.succeeded() by {
                assert(front[i] == outcomes[i]);
            }
            assert(outcomes[outcomes.len() - 1] is Some);
        }
    }
}

/// The command broke off, could not be run, was ended by a signal, or exited with
/// anything but zero.
pub open spec fn broke_off_or_failed() -> spec_fn(Option<Outcome>) -> bool {
    |o: Option<Outcome>|
        match o {
            None => true,
            Some(o) => o.setup_error is Some || match o.exit_code {
                None => true,
                Some(c) => c != 0,
            },
        }
}

/// Each repository in which the command broke off, could not be run, was ended by
/// a signal, or exited with anything but zero counts as one failure, and no other
/// does. So one nonzero exit code is enough to make the run a failure.
pub proof fn law_failures_are_counted(outcomes: Seq<Option<Outcome>>)
    ensures
        failures_in(outcomes) == outcomes.filter(broke_off_or_failed()).len(),
        forall|i: int|
            0 <= i < outcomes.len() && broke_off_or_failed()(#[trigger] outcomes[i])
                ==> failures_in(outcomes) > 0,
    decreases outcomes.len(),
{
    reveal(Seq::filter);
    let p = broke_off_or_failed();
    if outcomes.len() > 0 {
        let front = outcomes.drop_last();
        law_failures_are_counted(front);
        assert forall|i: int| 0 <= i < outcomes.len() && p(#[trigger] outcomes[i]) implies
            failures_in(outcomes) > 0 by {
            if i < front.len() {
                assert(front[i] == outcomes[i]);
            }
        }
    }
}

/// An outcome is a success exactly when the command ran and exited with zero, and
/// `ok` is said of exactly these. Any other exit code is told as the number it is.
pub proof fn law_status_of_an_outcome(o: Outcome)
    ensures
        o.succeeded() == (o.exit_code == Some(0i32) && o.setup_error is None),
        (o.status() == "ok"@) == (o.exit_code == Some(0i32) && o.setup_error is None),
        (o.status() == "ERR"@) == (o.setup_error is Some),
        (o.status() == "signal"@) == (o.setup_error is None && o.exit_code is None),
        occurs_at(o.status(), "exit "@, 0) == (o.setup_error is None && o.exit_code is Some
            && o.exit_code->0 != 0),
        o.setup_error is None && o.exit_code is Some && o.exit_code->0 > 0 ==> number_read(
            o.status().skip(5),
        ) == o.exit_code->0,
        o.setup_error is None && o.exit_code is Some && o.exit_code->0 < 0 ==> {
            &&& o.status()[5] == '-'
            &&& number_read(o.status().skip(6)) == -(o.exit_code->0)
        },
{
    reveal_strlit("ok");
    reveal_strlit("ERR");
    reveal_strlit("signal");
    reveal_strlit("exit ");
    assert("ok"@[0] == 'o' && "ERR"@[0] == 'E' && "signal"@[0] == 's' && "exit "@[0] == 'e');
    if occurs_at(o.status(), "exit "@, 0) {
        assert(o.status().subrange(0, 5)[0] == 'e');
    }
    if o.setup_error is None && o.exit_code is Some && o.exit_code->0 != 0 {
        let c = o.exit_code->0 as int;
        law_signed_decimal_reads_back(c);
        assert(o.status()[0] == 'e');
        assert(o.status().subrange(0, 5) =~= "exit "@);
        assert(o.status().skip(5) =~= signed_decimal(c));
        if c < 0 {
            assert(o.status().skip(6) =~= signed_decimal(c).skip(1));
        }
    }
}

/// What is said of a run that failed tells in how many repositories of how many; of one
/// that did not begin, what stood in the way.
pub proof fn law_messages_of_a_run(e: ExecError)
    ensures
        e matches ExecError::Path { slug, error } ==> has(e.text(), slug@ + ": "@ + error.text()),
        e matches ExecError::NoTagMatch(n) ==> has(e.text(), decimal(n as nat)),
        e matches ExecError::Failed { failures, total } ==> has(
            e.text(),
            decimal(failures as nat) + " of "@ + decimal(total as nat),
        ),
{
    match e {
        ExecError::Path { slug, error } => {
            let head = "resolving clone path for "@;
            lemma_told_in_order(head, slug@, ": "@, error.text());
        },
        ExecError::NoTagMatch(n) => {
            let number = decimal(n as nat);
            let head = "no repos matched the tag filter ("@;
            lemma_stands_between(head, number, " on the shelf total)"@);
        },
        ExecError::Failed { failures, total } => {
            let told = decimal(failures as nat) + " of "@ + decimal(total as nat);
            let tail = " repo(s) failed — see the per-repo blocks above"@;
            lemma_stands_at_an_end(Seq::empty(), told, tail);
        },
        _ => {},
    }
}

/// The command is run once for each row, in order, under its slug; in a row that is
/// pinned it is run where that is.
pub proof fn law_targets(config: ResolvedConfig, rows: Seq<RepoView>, targets: Seq<Target>, i: int)
    requires
        targets_of(config, rows, targets),
        0 <= i < rows.len(),
    ensures
        targets.len() == rows.len(),
        targets[i].slug@ == rows[i].host + "/"@ + rows[i].owner + "/"@ + rows[i].name,
        rows[i].path is Some ==> targets[i].path@ == rows[i].path->0,
{
}

/// A path that does not render is that of one of the rows, which is not pinned; it is
/// the first one that fails.
pub proof fn law_path_that_fails(
    config: ResolvedConfig,
    rows: Seq<RepoView>,
    slug: Seq<char>,
    error: ConfigError,
)
    requires
        path_fails(config, rows, slug, error),
    ensures
        error is Layout,
        exists|i: int|
            0 <= i < rows.len() && (#[trigger] rows[i]).slug() == slug && rows[i].path is None
                && config.may_fail_with(rows[i], error) && forall|j: int|
                0 <= j < i ==> config.may_render(#[trigger] rows[j]),
{
    let i = choose|i: int| #[trigger] fails_first_at(config, rows, slug, error, i);
    assert(rows[i].slug() == slug);
}

} // verus!
