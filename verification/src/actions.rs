//! Fetching and pushing a checkout from the dashboard.
use vstd::prelude::*;
use vstd::string::*;

use crate::text::{
    decimal, decimal_of, has, joined, lemma_stands_at_an_end,
    lemma_told_in_order,
};

verus! {

/// How long a fetch or a push may take, in seconds.
pub const ACTION_TIMEOUT_SECS: u64 = 120;

/// The version control system found in a working tree.
#[derive(Debug, Clone, Copy, PartialEq, Eq, Structural)]
pub enum VcsKind {
    Jj,
    Git,
}

impl VcsKind {
    /// The name of the system.
    pub open spec fn label_text(self) -> Seq<char> {
        match self {
            VcsKind::Jj => "jj"@,
            VcsKind::Git => "git"@,
        }
    }

    /// The name of the system.
    pub fn label(self) -> (r: &'static str)
        ensures
            r@ == self.label_text(),
    {
        match self {
            VcsKind::Jj => "jj",
            VcsKind::Git => "git",
        }
    }
}

/// Which system a working tree is driven with, given whether it holds a `.jj`
/// directory and whether it holds a `.git` of any kind. A tree with both is
/// driven with jj.
pub fn detect_vcs(jj_is_dir: bool, git_exists: bool) -> (r: Option<VcsKind>)
    ensures
        r == (if jj_is_dir {
            Some(VcsKind::Jj)
        } else if git_exists {
            Some(VcsKind::Git)
        } else {
            None
        }),
{
    if jj_is_dir {
        Some(VcsKind::Jj)
    } else if git_exists {
        Some(VcsKind::Git)
    } else {
        None
    }
}

/// What the dashboard does to a checkout.
#[derive(Debug, Clone, Copy, PartialEq, Eq, Structural)]
pub enum ActionKind {
    Fetch,
    Push,
}

impl ActionKind {
    /// The name of the action.
    pub open spec fn label_text(self) -> Seq<char> {
        match self {
            ActionKind::Fetch => "fetch"@,
            ActionKind::Push => "push"@,
        }
    }

    /// The name of the action.
    pub fn label(self) -> (r: &'static str)
        ensures
            r@ == self.label_text(),
    {
        match self {
            ActionKind::Fetch => "fetch",
            ActionKind::Push => "push",
        }
    }
}

/// What came of an action.
#[derive(Debug)]
pub struct ActionOutcome {
    pub success: bool,
    pub stdout: String,
    pub stderr: String,
    pub vcs: VcsKind,
    pub command: String,
}

/// The contents of an [`ActionOutcome`].
#[verifier::ext_equal]
pub struct ActionOutcomeView {
    pub success: bool,
    pub stdout: Seq<char>,
    pub stderr: Seq<char>,
    pub vcs: VcsKind,
    pub command: Seq<char>,
}

impl View for ActionOutcome {
    type V = ActionOutcomeView;

    open spec fn view(&self) -> ActionOutcomeView {
        ActionOutcomeView {
            success: self.success,
            stdout: self.stdout@,
            stderr: self.stderr@,
            vcs: self.vcs,
            command: self.command@,
        }
    }
}

/// The texts of arguments.
pub open spec fn arg_texts(args: Seq<&'static str>) -> Seq<Seq<char>> {
    args.map_values(|a: &'static str| a@)
}

/// The arguments of an action: jj goes through its `git` subcommand.
pub open spec fn action_args(vcs: VcsKind, kind: ActionKind) -> Seq<Seq<char>> {
    match vcs {
        VcsKind::Jj => seq!["git"@, kind.label_text()],
        VcsKind::Git => seq![kind.label_text()],
    }
}

/// The program and the arguments of an action.
pub fn command_for(vcs: VcsKind, kind: ActionKind) -> (r: (&'static str, &'static [&'static str]))
    ensures
        r.0@ == vcs.label_text(),
        arg_texts(r.1@) == action_args(vcs, kind),
{
    let args: &'static [&'static str] = match (vcs, kind) {
        (VcsKind::Jj, ActionKind::Fetch) => &["git", "fetch"],
        (VcsKind::Jj, ActionKind::Push) => &["git", "push"],
        (VcsKind::Git, ActionKind::Fetch) => &["fetch"],
        (VcsKind::Git, ActionKind::Push) => &["push"],
    };
    assert(arg_texts(args@) =~= action_args(vcs, kind));
    (vcs.label(), args)
}

/// The command line of an action, as it is shown.
pub open spec fn shown_command(vcs: VcsKind, kind: ActionKind) -> Seq<char> {
    match vcs {
        VcsKind::Jj => "jj git "@ + kind.label_text(),
        VcsKind::Git => "git "@ + kind.label_text(),
    }
}

/// The command line of an action, as it is shown.
pub fn display_command(vcs: VcsKind, kind: ActionKind) -> (r: String)
    ensures
        r@ == shown_command(vcs, kind),
{
    match vcs {
        VcsKind::Jj => "jj git ".to_owned().concat(kind.label()),
        VcsKind::Git => "git ".to_owned().concat(kind.label()),
    }
}

/// Why an action gave no outcome.
#[derive(Debug)]
pub enum ActionError {
    /// There is no `.jj` and no `.git` in this directory.
    NoVcs(String),
    /// The command could not be started.
    Spawn { command: String, cause: String },
    /// The command's output could not be read.
    Capture { command: String, cause: String },
}

impl ActionError {
    /// The text of the message.
    pub open spec fn text(self) -> Seq<char> {
        match self {
            ActionError::NoVcs(path) => "no .jj or .git found in "@ + path@,
            ActionError::Spawn { command, cause } => "failed to spawn `"@ + command@ + "`: "@
                + cause@,
            ActionError::Capture { command, cause } => "failed to capture output of `"@ + command@
                + "`: "@ + cause@,
        }
    }

    /// The message shown to the user.
    pub fn message(&self) -> (r: String)
        ensures
            r@ == self.text(),
    {
        match self {
            ActionError::NoVcs(path) => "no .jj or .git found in ".to_owned().concat(path.as_str()),
            ActionError::Spawn { command, cause } => "failed to spawn `".to_owned().concat(
                command.as_str(),
            ).concat("`: ").concat(cause.as_str()),
            ActionError::Capture { command, cause } => "failed to capture output of `".to_owned().concat(
                command.as_str(),
            ).concat("`: ").concat(cause.as_str()),
        }
    }
}

/// How running the command of an action ended.
#[derive(Debug)]
pub enum ActionEvent {
    /// It could not be started.
    NotStarted(String),
    /// Its output could not be read.
    NotRead(String),
    /// It did not end in time and was killed.
    TimedOut,
    /// It ended.
    Ended { success: bool, stdout: String, stderr: String },
}

/// The system to run an action with, or that the directory holds none.
pub fn action_vcs(path: &str, found: Option<VcsKind>) -> (r: Result<VcsKind, ActionError>)
    ensures
        match found {
            Some(v) => r == Ok::<VcsKind, ActionError>(v),
            None => r matches Err(ActionError::NoVcs(p)) && p@ == path@,
        },
{
    match found {
        Some(v) => Ok(v),
        None => Err(ActionError::NoVcs(path.to_owned())),
    }
}

/// What came of an action. A command that failed or was killed is an outcome
/// without success; only one that could not be started or read is an error.
pub fn run_action(vcs: VcsKind, kind: ActionKind, event: ActionEvent) -> (r: Result<
    ActionOutcome,
    ActionError,
>)
    ensures
        match event {
            ActionEvent::NotStarted(e) => r matches Err(ActionError::Spawn { command, cause })
                && command@ == shown_command(vcs, kind) && cause@ == e@,
            ActionEvent::NotRead(e) => r matches Err(ActionError::Capture { command, cause })
                && command@ == shown_command(vcs, kind) && cause@ == e@,
            ActionEvent::TimedOut => r matches Ok(o) && o@ == (ActionOutcomeView {
                success: false,
                stdout: Seq::empty(),
                stderr: "timed out after "@ + decimal(ACTION_TIMEOUT_SECS as nat)
                    + "s — child killed"@,
                vcs,
                command: shown_command(vcs, kind),
            }),
            ActionEvent::Ended { success, stdout, stderr } => r matches Ok(o) && o@ == (
            ActionOutcomeView {
                success,
                stdout: stdout@,
                stderr: stderr@,
                vcs,
                command: shown_command(vcs, kind),
            }),
        },
{
    let command = display_command(vcs, kind);
    match event {
        ActionEvent::NotStarted(cause) => Err(ActionError::Spawn { command, cause }),
        ActionEvent::NotRead(cause) => Err(ActionError::Capture { command, cause }),
        ActionEvent::TimedOut => Ok(
            ActionOutcome {
                success: false,
                stdout: String::new(),
                stderr: "timed out after ".to_owned().concat(
                    decimal_of(ACTION_TIMEOUT_SECS).as_str(),
                ).concat("s — child killed"),
                vcs,
                command,
            },
        ),
        ActionEvent::Ended { success, stdout, stderr } => Ok(
            ActionOutcome { success, stdout, stderr, vcs, command },
        ),
    }
}

/// What is shown of an action is what is run: the program and its arguments, with a
/// space between each two.
pub proof fn law_shown_is_what_is_run(vcs: VcsKind, kind: ActionKind)
    ensures
        shown_command(vcs, kind) == vcs.label_text() + " "@ + joined(action_args(vcs, kind), " "@),
{
    reveal_strlit("jj git ");
    reveal_strlit("git ");
    reveal_strlit("jj");
    reveal_strlit("git");
    reveal_strlit(" ");
    let args = action_args(vcs, kind);
    let k = kind.label_text();
    match vcs {
        VcsKind::Jj => {
            assert(args.drop_last() =~= seq!["git"@]);
            assert(joined(seq!["git"@], " "@) == "git"@);
            assert(joined(args, " "@) =~= "git"@ + " "@ + k);
            let j = "jj"@;
            let g = "git"@;
            let s = "jj git "@;
            assert(j[0] == 'j' && j[1] == 'j' && g[0] == 'g' && g[1] == 'i' && g[2] == 't');
            assert(s[0] == 'j' && s[1] == 'j' && s[2] == ' ' && s[3] == 'g' && s[4] == 'i' && s[5]
                == 't' && s[6] == ' ');
            assert(" "@[0] == ' ');
            assert(s =~= j + " "@ + g + " "@);
            assert(shown_command(vcs, kind) =~= j + " "@ + ("git"@ + " "@ + k));
        },
        VcsKind::Git => {
            assert(joined(args, " "@) =~= k);
            let g = "git"@;
            let s = "git "@;
            assert(g[0] == 'g' && g[1] == 'i' && g[2] == 't' && " "@[0] == ' ');
            assert(s[0] == 'g' && s[1] == 'i' && s[2] == 't' && s[3] == ' ');
            assert(s =~= g + " "@);
        },
    }
}

/// The last argument is the action. Before it stands `git` where jj is the program,
/// and nothing where git is.
pub proof fn law_arguments_of_an_action(vcs: VcsKind, kind: ActionKind)
    ensures
        action_args(vcs, kind).last() == (match kind {
            ActionKind::Fetch => "fetch"@,
            ActionKind::Push => "push"@,
        }),
        vcs == VcsKind::Jj ==> vcs.label_text() == "jj"@ && action_args(vcs, kind).drop_last()
            == seq!["git"@],
        vcs == VcsKind::Git ==> vcs.label_text() == "git"@ && action_args(vcs, kind).len() == 1,
{
    if vcs == VcsKind::Jj {
        assert(action_args(vcs, kind).drop_last() =~= seq!["git"@]);
    }
}

/// What is said of an action that gave no outcome names the directory, or the command
/// and the reason.
pub proof fn law_messages_of_an_action(e: ActionError)
    ensures
        e matches ActionError::NoVcs(path) ==> has(e.text(), path@),
        e matches ActionError::Spawn { command, cause } ==> has(
            e.text(),
            command@ + "`: "@ + cause@,
        ),
        e matches ActionError::Capture { command, cause } ==> has(
            e.text(),
            command@ + "`: "@ + cause@,
        ),
{
    match e {
        ActionError::NoVcs(path) => {
            lemma_stands_at_an_end("no .jj or .git found in "@, path@, Seq::empty());
        },
        ActionError::Spawn { command, cause } => {
            lemma_told_in_order("failed to spawn `"@, command@, "`: "@, cause@);
        },
        ActionError::Capture { command, cause } => {
            let head = "failed to capture output of `"@;
            lemma_told_in_order(head, command@, "`: "@, cause@);
        },
    }
}

} // verus!
