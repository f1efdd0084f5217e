//! `shoka init-shell`: a shell function that can change the directory of the
//! shell.
//!
//! The function takes the program's name, keeps `cd` and `tui` for itself and
//! hands everything else on. For those two it names a temporary file to the
//! program, and enters the directory that it finds in it afterwards.
use vstd::prelude::*;
use vstd::string::*;

use crate::cli::SupportedShell;
use crate::commands::cd::CD_OUT_ENV;
use crate::text::{has, occurs_at};

verus! {

/// A part of the function.
pub const POSIX_1: &'static str = r#"() {
    if [ $# -eq 0 ]; then
        set -- tui
    fi
    case "$1" in
        cd|tui)
            local tmp dest rc
            tmp=$(mktemp) || return 1
            "#;

/// A part of the function.
pub const POSIX_2: &'static str = r#"="$tmp" command shoka "$@"
            rc=$?
            if [ "$rc" -eq 0 ]; then
                dest=$(cat "$tmp")
            fi
            rm -f "$tmp"
            [ "$rc" -eq 0 ] && [ -n "$dest" ] && cd -- "$dest"
            return $rc
            ;;
        *)
            command shoka "$@"
            ;;
    esac
}
"#;

/// A part of the function.
pub const FISH_1: &'static str = r#"function "#;

/// A part of the function.
pub const FISH_2: &'static str = r#"
    if test (count $argv) -eq 0
        set argv tui
    end
    switch "$argv[1]"
        case cd tui
            set -l tmp (mktemp); or return 1
            set -lx "#;

/// A part of the function.
pub const FISH_3: &'static str = r#" $tmp
            command shoka $argv
            set -l rc $status
            set -l dest ""
            if test $rc -eq 0
                set dest (cat $tmp)
            end
            rm -f $tmp
            if test $rc -eq 0; and test -n "$dest"
                cd -- $dest
            end
            return $rc
        case '*'
            command shoka $argv
    end
end
"#;

/// A part of the function.
pub const POWERSHELL_1: &'static str = r#"function "#;

/// A part of the function.
pub const POWERSHELL_2: &'static str = r#" {
    if (-not $script:ShokaExe) {
        $script:ShokaExe = (Get-Command -Name shoka -CommandType Application -ErrorAction SilentlyContinue | Select-Object -First 1).Source
    }
    if (-not $script:ShokaExe) {
        Write-Error 'shoka binary not found on PATH'
        return
    }
    $first = if ($args.Count -gt 0) { $args[0] } else { 'tui' }
    if ($first -eq 'cd' -or $first -eq 'tui') {
        $tmp = New-TemporaryFile
        try {
            $env:"#;

/// A part of the function.
pub const POWERSHELL_3: &'static str = r#" = $tmp.FullName
            if ($args.Count -eq 0) {
                & $script:ShokaExe tui
            } else {
                & $script:ShokaExe @args
            }
            $code = $LASTEXITCODE
            if ($code -eq 0) {
                $dest = Get-Content -LiteralPath $tmp.FullName -Raw
                if ($dest) { Set-Location -LiteralPath $dest.TrimEnd() }
            }
            $global:LASTEXITCODE = $code
        } finally {
            Remove-Item -LiteralPath $tmp.FullName -Force -ErrorAction SilentlyContinue
            Remove-Item Env:"#;

/// A part of the function.
pub const POWERSHELL_4: &'static str = r#" -ErrorAction SilentlyContinue
        }
    } else {
        & $script:ShokaExe @args
    }
}
"#;

/// The function for bash and zsh.
pub open spec fn posix_wrapper_text(name: Seq<char>) -> Seq<char> {
    name + POSIX_1@ + CD_OUT_ENV@ + POSIX_2@
}

/// The function for bash and zsh, under this name.
pub fn posix_wrapper(name: &str) -> (r: String)
    ensures
        r@ == posix_wrapper_text(name@),
{
    name.to_owned().concat(POSIX_1).concat(CD_OUT_ENV).concat(POSIX_2)
}

/// The function for fish.
pub open spec fn fish_wrapper_text(name: Seq<char>) -> Seq<char> {
    FISH_1@ + name + FISH_2@ + CD_OUT_ENV@ + FISH_3@
}

/// The function for fish, under this name.
pub fn fish_wrapper(name: &str) -> (r: String)
    ensures
        r@ == fish_wrapper_text(name@),
{
    FISH_1.to_owned().concat(name).concat(FISH_2).concat(CD_OUT_ENV).concat(FISH_3)
}

/// The function for PowerShell.
pub open spec fn powershell_wrapper_text(name: Seq<char>) -> Seq<char> {
    POWERSHELL_1@ + name + POWERSHELL_2@ + CD_OUT_ENV@ + POWERSHELL_3@ + CD_OUT_ENV@ + POWERSHELL_4@
}

/// The function for PowerShell, under this name.
pub fn powershell_wrapper(name: &str) -> (r: String)
    ensures
        r@ == powershell_wrapper_text(name@),
{
    POWERSHELL_1.to_owned().concat(name).concat(POWERSHELL_2).concat(CD_OUT_ENV).concat(POWERSHELL_3).concat(CD_OUT_ENV).concat(POWERSHELL_4)
}

/// The function for a shell.
pub open spec fn wrapper_text(shell: SupportedShell, name: Seq<char>) -> Seq<char> {
    match shell {
        SupportedShell::Powershell => powershell_wrapper_text(name),
        SupportedShell::Bash => posix_wrapper_text(name),
        SupportedShell::Zsh => posix_wrapper_text(name),
        SupportedShell::Fish => fish_wrapper_text(name),
    }
}

/// The function for a shell, under this name.
pub fn run(shell: SupportedShell, name: &str) -> (r: String)
    ensures
        r@ == wrapper_text(shell, name@),
{
    match shell {
        SupportedShell::Powershell => powershell_wrapper(name),
        SupportedShell::Bash => posix_wrapper(name),
        SupportedShell::Zsh => posix_wrapper(name),
        SupportedShell::Fish => fish_wrapper(name),
    }
}

/// `needle` stands nowhere in `s`.
pub open spec fn lacks(s: Seq<char>, needle: Seq<char>) -> bool {
    forall|i: int| !occurs_at(s, needle, i)
}

/// Whether one of the things that the function must not do is spelled at a
/// position: three characters of it tell.
pub open spec fn unclean_at(s: Seq<char>, i: int) -> bool {
    ||| s[i] == 't' && s[i + 1] == 'u' && s[i + 2] == 's'
    ||| s[i] == 'k' && s[i + 1] == 'a' && s[i + 2] == '('
    ||| s[i] == '(' && s[i + 1] == 'c' && s[i + 2] == 'o'
}

/// Whether none of these is spelled anywhere.
pub open spec fn clean(s: Seq<char>) -> bool {
    forall|i: int| 0 <= i <= s.len() - 3 ==> !#[trigger] unclean_at(s, i)
}

spec fn clean_before(s: Seq<char>, n: nat) -> bool
    decreases n,
{
    n == 0 || (clean_before(s, (n - 1) as nat) && !unclean_at(s, n - 1))
}

proof fn lemma_clean_before(s: Seq<char>, n: nat, i: int)
    requires
        clean_before(s, n),
        0 <= i < n,
    ensures
        !unclean_at(s, i),
    decreases n,
{
    if i + 1 < n {
        lemma_clean_before(s, (n - 1) as nat, i);
    }
}

proof fn lemma_clean(s: Seq<char>)
    requires
        s.len() >= 2,
        clean_before(s, (s.len() - 2) as nat),
    ensures
        clean(s),
{
    assert forall|i: int| 0 <= i <= s.len() - 3 implies !#[trigger] unclean_at(s, i) by {
        lemma_clean_before(s, (s.len() - 2) as nat, i);
    }
}

/// Two clean texts are clean together, unless something is spelled where they
/// meet.
proof fn lemma_clean_joined(s: Seq<char>, t: Seq<char>)
    requires
        clean(s),
        clean(t),
        s.len() >= 2,
        t.len() >= 2,
        !unclean_at(s + t, s.len() - 2),
        !unclean_at(s + t, s.len() - 1),
    ensures
        clean(s + t),
{
    let both = s + t;
    assert forall|i: int| 0 <= i <= both.len() - 3 implies !#[trigger] unclean_at(both, i) by {
        if i + 3 <= s.len() {
            assert(!unclean_at(s, i));
        } else if i >= s.len() {
            assert(!unclean_at(t, i - s.len()));
        }
    }
}

/// A text with one of these in it does not stand in a clean one.
proof fn lemma_lacks(s: Seq<char>, needle: Seq<char>, k: int)
    requires
        clean(s),
        0 <= k <= needle.len() - 3,
        unclean_at(needle, k),
    ensures
        lacks(s, needle),
{
    assert forall|i: int| !occurs_at(s, needle, i) by {
        if occurs_at(s, needle, i) {
            let part = s.subrange(i, i + needle.len());
            assert(part[k] == s[i + k] && part[k + 1] == s[i + k + 1] && part[k + 2] == s[i + k
                + 2]);
            assert(unclean_at(s, i + k));
        }
    }
}

proof fn lemma_posix_1()
    ensures
        POSIX_1@.len() == 170,
        POSIX_1@[168] == ' ',
        POSIX_1@[169] == ' ',
        clean(POSIX_1@),
        "() {"@.len() == 4,
        occurs_at(POSIX_1@, "() {"@, 0),
        occurs_at(POSIX_1@, "set -- tui"@, 39),
        occurs_at(POSIX_1@, "cd|tui)"@, 82),
        occurs_at(POSIX_1@, "local tmp dest rc"@, 102),
{
    reveal_strlit("() {");
    reveal_strlit("set -- tui");
    reveal_strlit("cd|tui)");
    reveal_strlit("local tmp dest rc");
    reveal_strlit(
        r#"() {
    if [ $# -eq 0 ]; then
        set -- tui
    fi
    case "$1" in
        cd|tui)
            local tmp dest rc
            tmp=$(mktemp) || return 1
            "#,
    );
    assert(clean_before(POSIX_1@, 24)) by {
        reveal_with_fuel(clean_before, 25);
    }
    assert(clean_before(POSIX_1@, 48)) by {
        reveal_with_fuel(clean_before, 25);
    }
    assert(clean_before(POSIX_1@, 72)) by {
        reveal_with_fuel(clean_before, 25);
    }
    assert(clean_before(POSIX_1@, 96)) by {
        reveal_with_fuel(clean_before, 25);
    }
    assert(clean_before(POSIX_1@, 120)) by {
        reveal_with_fuel(clean_before, 25);
    }
    assert(clean_before(POSIX_1@, 144)) by {
        reveal_with_fuel(clean_before, 25);
    }
    assert(clean_before(POSIX_1@, 168)) by {
        reveal_with_fuel(clean_before, 25);
    }
    lemma_clean(POSIX_1@);
    assert(POSIX_1@.subrange(0, 4) =~= "() {"@);
    assert(POSIX_1@.subrange(39, 49) =~= "set -- tui"@);
    assert(POSIX_1@.subrange(82, 89) =~= "cd|tui)"@);
    assert(POSIX_1@.subrange(102, 119) =~= "local tmp dest rc"@);
}

proof fn lemma_posix_2()
    ensures
        POSIX_2@.len() == 326,
        POSIX_2@[0] == '=',
        clean(POSIX_2@),
        occurs_at(POSIX_2@, "command shoka \"$@\""@, 8),
{
    reveal_strlit("command shoka \"$@\"");
    reveal_strlit(
        r#"="$tmp" command shoka "$@"
            rc=$?
            if [ "$rc" -eq 0 ]; then
                dest=$(cat "$tmp")
            fi
            rm -f "$tmp"
            [ "$rc" -eq 0 ] && [ -n "$dest" ] && cd -- "$dest"
            return $rc
            ;;
        *)
            command shoka "$@"
            ;;
    esac
}
"#,
    );
    assert(clean_before(POSIX_2@, 24)) by {
        reveal_with_fuel(clean_before, 25);
    }
    assert(clean_before(POSIX_2@, 48)) by {
        reveal_with_fuel(clean_before, 25);
    }
    assert(clean_before(POSIX_2@, 72)) by {
        reveal_with_fuel(clean_before, 25);
    }
    assert(clean_before(POSIX_2@, 96)) by {
        reveal_with_fuel(clean_before, 25);
    }
    assert(clean_before(POSIX_2@, 120)) by {
        reveal_with_fuel(clean_before, 25);
    }
    assert(clean_before(POSIX_2@, 144)) by {
        reveal_with_fuel(clean_before, 25);
    }
    assert(clean_before(POSIX_2@, 168)) by {
        reveal_with_fuel(clean_before, 25);
    }
    assert(clean_before(POSIX_2@, 192)) by {
        reveal_with_fuel(clean_before, 25);
    }
    assert(clean_before(POSIX_2@, 216)) by {
        reveal_with_fuel(clean_before, 25);
    }
    assert(clean_before(POSIX_2@, 240)) by {
        reveal_with_fuel(clean_before, 25);
    }
    assert(clean_before(POSIX_2@, 264)) by {
        reveal_with_fuel(clean_before, 25);
    }
    assert(clean_before(POSIX_2@, 288)) by {
        reveal_with_fuel(clean_before, 25);
    }
    assert(clean_before(POSIX_2@, 312)) by {
        reveal_with_fuel(clean_before, 25);
    }
    assert(clean_before(POSIX_2@, 324)) by {
        reveal_with_fuel(clean_before, 25);
    }
    lemma_clean(POSIX_2@);
    assert(POSIX_2@.subrange(8, 26) =~= "command shoka \"$@\""@);
}

proof fn lemma_within(before: Seq<char>, s: Seq<char>, after: Seq<char>, needle: Seq<char>, i: int)
    requires
        occurs_at(s, needle, i),
    ensures
        has(before + s + after, needle),
{
    let all = before + s + after;
    let at = before.len() + i;
    assert(all.subrange(at, at + needle.len()) =~= s.subrange(i, i + needle.len()));
    assert(occurs_at(all, needle, at));
}

/// The function for bash and zsh is its name and one fixed text. That text opens
/// the function, keeps `cd` and `tui` for itself, starts with `tui` where nothing
/// is asked for, names the file for the directory and runs the program itself. It
/// does not touch `status`, which zsh does not let a script set, defines no other
/// function, and does not take what the program prints.
pub proof fn law_posix_wrapper(name: Seq<char>)
    ensures
        ({
            let body = posix_wrapper_text(Seq::empty());
            &&& posix_wrapper_text(name) == name + body
            &&& occurs_at(body, "() {"@, 0)
            &&& has(body, "cd|tui)"@)
            &&& has(body, CD_OUT_ENV@)
            &&& has(body, "set -- tui"@)
            &&& has(body, "command shoka \"$@\""@)
            &&& has(body, "local tmp dest rc"@)
            &&& lacks(body, "status"@)
            &&& lacks(body, "shoka()"@)
            &&& lacks(body, "$(command shoka cd"@)
        }),
{
    lemma_posix_1();
    lemma_posix_2();
    reveal_strlit("SHOKA_CD_OUT");
    reveal_strlit("status");
    reveal_strlit("shoka()");
    reveal_strlit("$(command shoka cd");
    let none = Seq::<char>::empty();
    let body = posix_wrapper_text(none);
    let tail = CD_OUT_ENV@ + POSIX_2@;
    assert(posix_wrapper_text(name) =~= name + body);
    assert(body =~= none + POSIX_1@ + tail);
    assert(body =~= POSIX_1@ + CD_OUT_ENV@ + POSIX_2@);
    assert(body =~= (POSIX_1@ + CD_OUT_ENV@) + POSIX_2@ + none);
    assert(body.subrange(0, 4) =~= POSIX_1@.subrange(0, 4));
    lemma_within(none, POSIX_1@, tail, "cd|tui)"@, 82);
    assert(CD_OUT_ENV@.subrange(0, 12) =~= CD_OUT_ENV@);
    lemma_within(POSIX_1@, CD_OUT_ENV@, POSIX_2@, CD_OUT_ENV@, 0);
    lemma_within(none, POSIX_1@, tail, "set -- tui"@, 39);
    lemma_within(POSIX_1@ + CD_OUT_ENV@, POSIX_2@, none, "command shoka \"$@\""@, 8);
    lemma_within(none, POSIX_1@, tail, "local tmp dest rc"@, 102);
    assert(clean(CD_OUT_ENV@)) by {
        assert(clean_before(CD_OUT_ENV@, 10)) by {
            reveal_with_fuel(clean_before, 11);
        }
        lemma_clean(CD_OUT_ENV@);
    }
    lemma_clean_joined(POSIX_1@, CD_OUT_ENV@);
    lemma_clean_joined(POSIX_1@ + CD_OUT_ENV@, POSIX_2@);
    lemma_lacks(body, "status"@, 3);
    lemma_lacks(body, "shoka()"@, 3);
    lemma_lacks(body, "$(command shoka cd"@, 1);
}

/// Each shell gets a function under the name asked for, and all else in it is the same
/// whatever the name. bash and zsh get the same one, which begins with the name; fish
/// and PowerShell define theirs by `function`. Each names the variable that the
/// program looks for.
pub proof fn law_wrappers(name: Seq<char>, other: Seq<char>)
    ensures
        wrapper_text(SupportedShell::Bash, name) == wrapper_text(SupportedShell::Zsh, name),
        occurs_at(wrapper_text(SupportedShell::Bash, name), name + "() {"@, 0),
        occurs_at(wrapper_text(SupportedShell::Fish, name), "function "@ + name, 0),
        occurs_at(wrapper_text(SupportedShell::Powershell, name), "function "@ + name + " {"@, 0),
        has(wrapper_text(SupportedShell::Bash, name), "SHOKA_CD_OUT"@),
        has(wrapper_text(SupportedShell::Fish, name), "SHOKA_CD_OUT"@),
        has(wrapper_text(SupportedShell::Powershell, name), "SHOKA_CD_OUT"@),
        wrapper_text(SupportedShell::Bash, name).skip(name.len() as int) == wrapper_text(
            SupportedShell::Bash,
            other,
        ).skip(other.len() as int),
        wrapper_text(SupportedShell::Fish, name).skip(9 + name.len() as int) == wrapper_text(
            SupportedShell::Fish,
            other,
        ).skip(9 + other.len() as int),
        wrapper_text(SupportedShell::Powershell, name).skip(9 + name.len() as int) == wrapper_text(
            SupportedShell::Powershell,
            other,
        ).skip(9 + other.len() as int),
{
    reveal_strlit("function ");
    reveal_strlit("SHOKA_CD_OUT");
    reveal_strlit(" {");
    lemma_posix_1();
    lemma_powershell_2();
    let env = CD_OUT_ENV@;
    let none = Seq::<char>::empty();
    let n = name.len() as int;
    let bash = wrapper_text(SupportedShell::Bash, name);
    let fish = wrapper_text(SupportedShell::Fish, name);
    let power = wrapper_text(SupportedShell::Powershell, name);
    assert(env.subrange(0, 12) =~= env);
    assert(bash =~= (name + POSIX_1@) + env + POSIX_2@);
    lemma_within(name + POSIX_1@, env, POSIX_2@, env, 0);
    assert(fish =~= (FISH_1@ + name + FISH_2@) + env + FISH_3@);
    lemma_within(FISH_1@ + name + FISH_2@, env, FISH_3@, env, 0);
    let rest = POWERSHELL_3@ + env + POWERSHELL_4@;
    assert(power =~= (POWERSHELL_1@ + name + POWERSHELL_2@) + env + rest);
    lemma_within(POWERSHELL_1@ + name + POWERSHELL_2@, env, rest, env, 0);
    let head = name + "() {"@;
    assert(bash.subrange(0, n + 4) =~= name + POSIX_1@.subrange(0, 4));
    assert(bash.subrange(0, n + 4) =~= head);
    assert(FISH_1@ == "function "@ && POWERSHELL_1@ == "function "@);
    assert(fish.subrange(0, 9 + n) =~= "function "@ + name);
    assert(power.subrange(0, 9 + n + 2) =~= "function "@ + name + POWERSHELL_2@.subrange(0, 2));
    let m = other.len() as int;
    assert(bash.skip(n) =~= POSIX_1@ + env + POSIX_2@);
    assert(wrapper_text(SupportedShell::Bash, other).skip(m) =~= POSIX_1@ + env + POSIX_2@);
    assert(fish.skip(9 + n) =~= FISH_2@ + env + FISH_3@);
    assert(wrapper_text(SupportedShell::Fish, other).skip(9 + m) =~= FISH_2@ + env + FISH_3@);
    assert(power.skip(9 + n) =~= POWERSHELL_2@ + env + rest);
    assert(wrapper_text(SupportedShell::Powershell, other).skip(9 + m) =~= POWERSHELL_2@ + env
        + rest);
}

proof fn lemma_powershell_2()
    ensures
        POWERSHELL_2@.len() >= 2,
        POWERSHELL_2@.subrange(0, 2) == " {"@,
{
    reveal_strlit(" {");
    reveal_strlit(
        r#" {
    if (-not $script:ShokaExe) {
        $script:ShokaExe = (Get-Command -Name shoka -CommandType Application -ErrorAction SilentlyContinue | Select-Object -First 1).Source
    }
    if (-not $script:ShokaExe) {
        Write-Error 'shoka binary not found on PATH'
        return
    }
    $first = if ($args.Count -gt 0) { $args[0] } else { 'tui' }
    if ($first -eq 'cd' -or $first -eq 'tui') {
        $tmp = New-TemporaryFile
        try {
            $env:"#,
    );
    assert(POWERSHELL_2@.subrange(0, 2) =~= " {"@);
}

} // verus!
