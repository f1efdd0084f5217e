use shoka::cli::SupportedShell;
use shoka::commands::init_shell::{fish_wrapper, posix_wrapper, powershell_wrapper, run};

fn rendered(shell: SupportedShell, name: &str) -> String {
    match shell {
        SupportedShell::Powershell => powershell_wrapper(name),
        SupportedShell::Bash | SupportedShell::Zsh => posix_wrapper(name),
        SupportedShell::Fish => fish_wrapper(name),
    }
}

#[test]
fn posix_wrapper_dispatches_cd_and_tui_through_sidechannel() {
    let body = rendered(SupportedShell::Bash, "shoka");
    assert!(
        body.contains("shoka()"),
        "function name should be `shoka`: {body}"
    );
    assert!(
        body.contains("SHOKA_CD_OUT"),
        "wrapper must set the sidechannel env var: {body}"
    );
    assert!(
        body.contains("cd|tui)"),
        "wrapper must intercept both `cd` and `tui`: {body}"
    );
    assert!(
        body.contains("command shoka"),
        "wrapper must use `command shoka` to bypass the function: {body}"
    );
    assert!(
        !body.contains("$(command shoka cd"),
        "wrapper must not capture stdout via command substitution: {body}"
    );
}

#[test]
fn posix_wrapper_avoids_zsh_readonly_status_variable() {
    let body = rendered(SupportedShell::Zsh, "shoka");
    assert!(
        !body.contains("status"),
        "posix wrapper must not use the zsh-readonly `status` variable: {body}"
    );
    assert!(
        body.contains("local tmp dest rc"),
        "posix wrapper should hold the exit code in `rc`: {body}"
    );
}

#[test]
fn posix_wrapper_passes_other_subcommands_through_to_binary() {
    let body = rendered(SupportedShell::Bash, "shoka");
    let wildcard_pos = body
        .find("*)")
        .expect("wildcard pass-through branch must exist");
    let after = &body[wildcard_pos..];
    assert!(
        after.contains(r#"command shoka "$@""#),
        "pass-through arm must invoke the binary without sidechannel setup: {body}"
    );
}

#[test]
fn fish_wrapper_dispatches_cd_and_tui_through_sidechannel() {
    let body = rendered(SupportedShell::Fish, "shoka");
    assert!(body.contains("function shoka"));
    assert!(body.contains("SHOKA_CD_OUT"));
    assert!(
        body.contains("case cd tui"),
        "fish wrapper must intercept both `cd` and `tui`: {body}"
    );
    assert!(
        body.contains("command shoka"),
        "fish wrapper must invoke the binary via `command`: {body}"
    );
    assert!(
        !body.contains("(command shoka cd"),
        "fish wrapper must not capture stdout via subshell: {body}"
    );
}

#[test]
fn powershell_wrapper_dispatches_cd_and_tui_through_sidechannel() {
    let body = rendered(SupportedShell::Powershell, "shoka");
    assert!(body.contains("function shoka"));
    assert!(body.contains("SHOKA_CD_OUT"));
    assert!(
        body.contains("Get-Command -Name shoka -CommandType Application"),
        "PowerShell wrapper must resolve the binary explicitly to avoid recursion: {body}"
    );
    assert!(
        body.contains("$script:ShokaExe"),
        "PowerShell wrapper must cache the resolved binary in $script:ShokaExe: {body}"
    );
    assert!(
        body.contains("$first -eq 'cd' -or $first -eq 'tui'"),
        "PowerShell wrapper must dispatch on the first arg: {body}"
    );
    assert!(body.contains("finally"), "wrapper missing cleanup: {body}");
    assert!(
        body.contains("& $script:ShokaExe tui"),
        "PowerShell wrapper must invoke tui literally to avoid the array-unwrap trap: {body}"
    );
}

#[test]
fn posix_wrapper_defaults_to_tui_when_called_without_args() {
    let body = rendered(SupportedShell::Bash, "shoka");
    assert!(
        body.contains("if [ $# -eq 0 ]; then\n        set -- tui\n    fi"),
        "bash wrapper must default to `tui` when called without args: {body}"
    );
}

#[test]
fn fish_wrapper_defaults_to_tui_when_called_without_args() {
    let body = rendered(SupportedShell::Fish, "shoka");
    assert!(
        body.contains("if test (count $argv) -eq 0\n        set argv tui\n    end"),
        "fish wrapper must default to `tui` when called without args: {body}"
    );
}

#[test]
fn powershell_wrapper_defaults_to_tui_when_called_without_args() {
    let body = rendered(SupportedShell::Powershell, "shoka");
    assert!(
        body.contains("if ($args.Count -gt 0) { $args[0] } else { 'tui' }"),
        "PowerShell wrapper must compute first-arg default as `tui`: {body}"
    );
    assert!(
        body.contains("if ($args.Count -eq 0) {\n                & $script:ShokaExe tui"),
        "PowerShell wrapper must invoke shoka.exe tui when called without args: {body}"
    );
}

#[test]
fn custom_name_substitutes_throughout() {
    let body = rendered(SupportedShell::Bash, "s");
    assert!(body.contains("s()"));
    assert!(body.contains("cd|tui)"));
    assert!(body.contains("command shoka"));
    assert!(
        !body.contains("shoka()"),
        "custom name must not also emit a default `shoka()` definition: {body}"
    );
}

#[test]
fn run_emits_wrapper_for_each_supported_shell() {
    for shell in [
        SupportedShell::Bash,
        SupportedShell::Zsh,
        SupportedShell::Fish,
        SupportedShell::Powershell,
    ] {
        assert_eq!(run(shell, "shoka"), rendered(shell, "shoka"));
    }
}
