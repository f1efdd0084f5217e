//! The commands.
use vstd::prelude::*;
use vstd::string::*;

use crate::cli::{Command, TagCommand, TuiArgs};
use crate::config::{AutoUpdateMode, ResolvedConfig};
use crate::fspath::{join, path_join};
use crate::paths::ShokaPaths;
use crate::text::{occurs_at, opt_as_str, opt_str, opt_text};
use crate::updater::{
    auto_update_disabled_by_env, check_interval, engages, in_range, interval_or_day,
    parsed_interval, Interval,
};

pub mod cache;
pub mod cd;
pub mod clone;
pub mod doctor;
pub mod exec;
pub mod import;
pub mod init_shell;
pub mod list;
pub mod new;
pub mod prune;
pub mod rm;
pub mod tui;

verus! {

/// What every command is given.
#[derive(Debug, Clone)]
pub struct ShokaContext {
    pub paths: ShokaPaths,
    /// The profile named on the command line or in the environment.
    pub profile_override: Option<String>,
}

/// Whether a command is followed by a background refresh of the cache. Not so
/// the cache's own commands, the script generators, the dashboard, which
/// refreshes by itself, and the update, which has just replaced the program.
pub open spec fn refreshes(cmd: Command) -> bool {
    !(cmd is Cache || cmd is Completion || cmd is InitShell || cmd is Tui || cmd is SelfUpdate)
}

/// Whether a command is followed by a background refresh of the cache.
pub fn bg_refresh_eligible(cmd: &Command) -> (r: bool)
    ensures
        r == refreshes(*cmd),
{
    match cmd {
        Command::Cache(_) => false,
        Command::Completion(_) => false,
        Command::InitShell(_) => false,
        Command::Tui(_) => false,
        Command::SelfUpdate(_) => false,
        _ => true,
    }
}

/// Whether a command carries a background check for a new release. Not so the
/// update itself, the script generators, and the dashboard, which owns the
/// screen.
pub open spec fn checks_release(cmd: Command) -> bool {
    !(cmd is SelfUpdate || cmd is Completion || cmd is InitShell || cmd is Tui)
}

/// Whether a command carries a background check for a new release.
pub fn auto_update_eligible(cmd: &Command) -> (r: bool)
    ensures
        r == checks_release(*cmd),
{
    match cmd {
        Command::SelfUpdate(_) => false,
        Command::Completion(_) => false,
        Command::InitShell(_) => false,
        Command::Tui(_) => false,
        _ => true,
    }
}

/// A command with what goes on around it.
#[derive(Debug)]
pub struct Dispatch {
    pub command: Command,
    /// The cache is refreshed in the background afterwards, even when the
    /// command fails.
    pub bg_refresh: bool,
    /// A new release is checked for meanwhile.
    pub auto_update: bool,
}

/// The command to run, and what goes on around it; without a command it is the
/// dashboard over the whole shelf.
pub fn dispatch(cmd: Option<Command>) -> (r: Dispatch)
    ensures
        match cmd {
            Some(c) => r.command == c,
            None => r.command matches Command::Tui(a) && a.tags@.len() == 0,
        },
        r.bg_refresh == refreshes(r.command),
        r.auto_update == checks_release(r.command),
{
    let command = match cmd {
        Some(c) => c,
        None => Command::Tui(TuiArgs { tags: Vec::new() }),
    };
    let bg_refresh = bg_refresh_eligible(&command);
    let auto_update = auto_update_eligible(&command);
    Dispatch { command, bg_refresh, auto_update }
}

/// The answer of a command that does nothing so far; `None` for one that does
/// its work.
pub open spec fn unavailable_text(cmd: Command) -> Option<Seq<char>> {
    match cmd {
        Command::Tag(TagCommand::Add { .. }) => Some("`shoka tag add` is not implemented yet"@),
        Command::Tag(TagCommand::Rm { .. }) => Some("`shoka tag rm` is not implemented yet"@),
        Command::Tag(TagCommand::Ls { .. }) => Some("`shoka tag ls` is not implemented yet"@),
        Command::Tag(TagCommand::Who { .. }) => Some("`shoka tag who` is not implemented yet"@),
        Command::Assign(_) => Some("`shoka set` is not implemented yet"@),
        Command::Note(_) => Some("`shoka note` is not implemented yet"@),
        Command::Export(_) => Some("`shoka export` is not implemented yet"@),
        _ => None,
    }
}

/// The answer of a command that does nothing so far.
pub fn unavailable(cmd: &Command) -> (r: Option<&'static str>)
    ensures
        opt_str(r) == unavailable_text(*cmd),
{
    match cmd {
        Command::Tag(TagCommand::Add { .. }) => Some("`shoka tag add` is not implemented yet"),
        Command::Tag(TagCommand::Rm { .. }) => Some("`shoka tag rm` is not implemented yet"),
        Command::Tag(TagCommand::Ls { .. }) => Some("`shoka tag ls` is not implemented yet"),
        Command::Tag(TagCommand::Who { .. }) => Some("`shoka tag who` is not implemented yet"),
        Command::Assign(_) => Some("`shoka set` is not implemented yet"),
        Command::Note(_) => Some("`shoka note` is not implemented yet"),
        Command::Export(_) => Some("`shoka export` is not implemented yet"),
        _ => None,
    }
}

/// How a background check is set up.
#[derive(Debug)]
pub struct AutoUpdateSetup {
    pub mode: AutoUpdateMode,
    pub interval: Interval,
    /// The file that remembers the last check.
    pub state_path: String,
}

/// The set-up of the background check, if there is to be one: not when the
/// kill switch is engaged, when the configuration cannot be used, or when it
/// turns checks off.
pub fn maybe_spawn_auto_update(
    kill_switch: Option<&str>,
    resolved: Option<&ResolvedConfig>,
    paths: &ShokaPaths,
) -> (r: Option<AutoUpdateSetup>)
    ensures
        match r {
            Some(setup) => {
                &&& !engages(opt_str(kill_switch))
                &&& resolved is Some
                &&& resolved->0.auto_update != AutoUpdateMode::Off
                &&& setup.mode == resolved->0.auto_update
                &&& setup.state_path@ == path_join(
                    paths.cache_dir_text(),
                    "last_update_check.json"@,
                )
                &&& setup.interval == (match opt_text(resolved->0.update_check_interval) {
                    Some(s) => if in_range(s) {
                        interval_or_day(parsed_interval(s))
                    } else {
                        interval_or_day(None)
                    },
                    None => interval_or_day(None),
                })
            },
            None => engages(opt_str(kill_switch)) || resolved is None || resolved->0.auto_update
                == AutoUpdateMode::Off,
        },
{
    if auto_update_disabled_by_env(kill_switch) {
        return None;
    }
    match resolved {
        None => None,
        Some(c) => {
            if c.auto_update == AutoUpdateMode::Off {
                return None;
            }
            let interval = check_interval(opt_as_str(&c.update_check_interval));
            let state_path = join(paths.cache_dir(), "last_update_check.json");
            Some(AutoUpdateSetup { mode: c.auto_update, interval, state_path })
        },
    }
}

/// A command that works on the shelf, reports on it or on the environment is
/// followed by a refresh and carries a check for a release. Of the others, which do
/// neither, only those on the cache carry the check.
pub proof fn law_background_work(cmd: Command)
    ensures
        refreshes(cmd) == (cmd is Clone || cmd is New || cmd is List || cmd is Cd || cmd is Exec
            || cmd is Prune || cmd is Rm || cmd is Import || cmd is Export || cmd is Tag
            || cmd is Assign || cmd is Note || cmd is Doctor),
        checks_release(cmd) == (refreshes(cmd) || cmd is Cache),
{
}

/// The commands that do nothing so far are those on tags, settings, notes and
/// exports, and each has an answer of its own.
pub proof fn law_unavailable(a: Command, b: Command)
    ensures
        unavailable_text(a) is Some == (a is Tag || a is Assign || a is Note || a is Export),
        unavailable_text(a) is Some && unavailable_text(a) == unavailable_text(b) ==> {
            &&& a is Assign == b is Assign
            &&& a is Note == b is Note
            &&& a is Export == b is Export
            &&& a is Tag ==> {
                &&& a->Tag_0 is Add == b->Tag_0 is Add
                &&& a->Tag_0 is Rm == b->Tag_0 is Rm
                &&& a->Tag_0 is Ls == b->Tag_0 is Ls
                &&& a->Tag_0 is Who == b->Tag_0 is Who
            }
        },
{
    reveal_strlit("`shoka tag add` is not implemented yet");
    reveal_strlit("`shoka tag rm` is not implemented yet");
    reveal_strlit("`shoka tag ls` is not implemented yet");
    reveal_strlit("`shoka tag who` is not implemented yet");
    reveal_strlit("`shoka set` is not implemented yet");
    reveal_strlit("`shoka note` is not implemented yet");
    reveal_strlit("`shoka export` is not implemented yet");
    let add = "`shoka tag add` is not implemented yet"@;
    let rm = "`shoka tag rm` is not implemented yet"@;
    let ls = "`shoka tag ls` is not implemented yet"@;
    let who = "`shoka tag who` is not implemented yet"@;
    let assign = "`shoka set` is not implemented yet"@;
    let note = "`shoka note` is not implemented yet"@;
    let export = "`shoka export` is not implemented yet"@;
    assert(add[7] == 't' && rm[7] == 't' && ls[7] == 't' && who[7] == 't' && assign[7] == 's'
        && note[7] == 'n' && export[7] == 'e');
    assert(add[11] == 'a' && rm[11] == 'r' && ls[11] == 'l' && who[11] == 'w');
}

/// The answer of a command that does nothing so far names the command.
pub proof fn law_unavailable_is_named(cmd: Command)
    ensures
        cmd is Assign ==> occurs_at(unavailable_text(cmd)->0, "`shoka set`"@, 0),
        cmd is Note ==> occurs_at(unavailable_text(cmd)->0, "`shoka note`"@, 0),
        cmd is Export ==> occurs_at(unavailable_text(cmd)->0, "`shoka export`"@, 0),
        cmd is Tag ==> occurs_at(unavailable_text(cmd)->0, "`shoka tag "@, 0),
{
    reveal_strlit("`shoka tag add` is not implemented yet");
    reveal_strlit("`shoka tag rm` is not implemented yet");
    reveal_strlit("`shoka tag ls` is not implemented yet");
    reveal_strlit("`shoka tag who` is not implemented yet");
    reveal_strlit("`shoka set` is not implemented yet");
    reveal_strlit("`shoka note` is not implemented yet");
    reveal_strlit("`shoka export` is not implemented yet");
    reveal_strlit("`shoka set`");
    reveal_strlit("`shoka note`");
    reveal_strlit("`shoka export`");
    reveal_strlit("`shoka tag ");
    if cmd is Assign {
        assert(unavailable_text(cmd)->0.subrange(0, 11) =~= "`shoka set`"@);
    } else if cmd is Note {
        assert(unavailable_text(cmd)->0.subrange(0, 12) =~= "`shoka note`"@);
    } else if cmd is Export {
        assert(unavailable_text(cmd)->0.subrange(0, 14) =~= "`shoka export`"@);
    } else if cmd is Tag {
        assert(unavailable_text(cmd)->0.subrange(0, 11) =~= "`shoka tag "@);
    }
}

} // verus!
