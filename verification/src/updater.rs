//! Background checks for new releases.
use vstd::prelude::*;
use vstd::string::*;
use vstd::arithmetic::power::{lemma_pow_increases, pow};

use crate::config::AutoUpdateMode;
use crate::seqs::{first_index, lemma_is_first_index};
use crate::text::{
    ascii_folded, blank_text, chars_of, decimal, eq_ignore_ascii_case, is_white_space,
    law_case_of_letters, law_decimal_reads_back, law_trimmed, number_read, opt_str, same_letter,
    same_text, string_of, trim, trimmed, white_space,
};

verus! {

/// How long the end of a command waits for the background work, in seconds.
pub const FINALIZE_TIMEOUT_SECS: u64 = 5;

/// Whether a value of the kill switch engages it: anything but an empty one,
/// `0` and `false`, in whatever case, with white space around it or not.
pub open spec fn engages(value: Option<Seq<char>>) -> bool {
    value is Some && {
        let t = trimmed(value->0);
        t.len() > 0 && ascii_folded(t) != ascii_folded("0"@) && ascii_folded(t) != ascii_folded(
            "false"@,
        )
    }
}

/// Whether the environment turns background updates off, given the value of
/// its kill switch.
pub fn auto_update_disabled_by_env(value: Option<&str>) -> (r: bool)
    ensures
        r == engages(opt_str(value)),
{
    match value {
        Some(v) => {
            let t = trim(v);
            !t.as_str().is_empty() && !eq_ignore_ascii_case(t.as_str(), "0")
                && !eq_ignore_ascii_case(t.as_str(), "false")
        },
        None => false,
    }
}

/// A span of time.
#[derive(Debug, Clone, Copy, PartialEq, Eq, Structural)]
pub struct Interval {
    pub secs: u64,
    pub nanos: u32,
}

/// The seconds and nanoseconds that `kaishin::parse_interval` reads from a
/// text, where it reads any.
pub uninterp spec fn parsed_interval(text: Seq<char>) -> Option<(u64, u32)>;

/// Whether a character is a decimal digit.
pub open spec fn is_digit(c: char) -> bool {
    '0' <= c <= '9'
}

/// Whether a character can stand in the number of a span of time, and not in
/// its unit: a digit, the decimal point, or white space.
pub open spec fn in_number(c: char) -> bool {
    is_digit(c) || c == '.' || white_space(c)
}

/// How many decimal digits a text has.
pub open spec fn digits_in(s: Seq<char>) -> nat
    decreases s.len(),
{
    if s.len() == 0 {
        0
    } else if is_digit(s.last()) {
        digits_in(s.drop_last()) + 1
    } else {
        digits_in(s.drop_last())
    }
}

/// The number that the digits of a text spell.
pub open spec fn number_in(s: Seq<char>) -> nat
    decreases s.len(),
{
    if s.len() == 0 {
        0
    } else if is_digit(s.last()) {
        number_in(s.drop_last()) * 10 + (s.last() as nat - '0' as nat) as nat
    } else {
        number_in(s.drop_last())
    }
}

/// How many nanoseconds a unit of time has; none are counted for a text that is
/// no unit.
pub open spec fn unit_nanos(u: Seq<char>) -> u64 {
    if u == "nanos"@ || u == "nsec"@ || u == "ns"@ {
        1
    } else if u == "usec"@ || u == "us"@ || u == "µs"@ {
        1_000
    } else if u == "millis"@ || u == "msec"@ || u == "ms"@ {
        1_000_000
    } else if u == "seconds"@ || u == "second"@ || u == "secs"@ || u == "sec"@ || u == "s"@ {
        1_000_000_000
    } else if u == "minutes"@ || u == "minute"@ || u == "min"@ || u == "mins"@ || u == "m"@ {
        60_000_000_000
    } else if u == "hours"@ || u == "hour"@ || u == "hr"@ || u == "hrs"@ || u == "h"@ {
        3_600_000_000_000
    } else if u == "days"@ || u == "day"@ || u == "d"@ {
        86_400_000_000_000
    } else if u == "weeks"@ || u == "week"@ || u == "wk"@ || u == "wks"@ || u == "w"@ {
        604_800_000_000_000
    } else if u == "months"@ || u == "month"@ || u == "M"@ {
        2_630_016_000_000_000
    } else if u == "years"@ || u == "year"@ || u == "yr"@ || u == "yrs"@ || u == "y"@ {
        31_557_600_000_000_000
    } else {
        0
    }
}

/// The nanoseconds in a number of units; none where the number is not under
/// 2^64 or has more than 19 decimals.
pub open spec fn span_nanos(number: Seq<char>, unit: Seq<char>) -> Option<nat> {
    let dot = first_index(number, |c: char| c == '.');
    let whole = number_in(number.take(dot));
    let decimals = number.skip(dot);
    if whole > u64::MAX || digits_in(decimals) > 19 {
        None
    } else {
        Some(
            whole * unit_nanos(unit) as nat + number_in(decimals) * unit_nanos(unit) as nat / pow(
                10,
                digits_in(decimals),
            ) as nat,
        )
    }
}

/// Where the number that begins at a position ends.
pub open spec fn number_end(s: Seq<char>, i: int) -> int
    decreases s.len() - i,
{
    if i < s.len() && in_number(s[i]) {
        number_end(s, i + 1)
    } else {
        i
    }
}

/// Where the unit that begins at a position ends.
pub open spec fn unit_end(s: Seq<char>, i: int) -> int
    decreases s.len() - i,
{
    if i < s.len() && !in_number(s[i]) {
        unit_end(s, i + 1)
    } else {
        i
    }
}

/// The nanoseconds that the spans of time in a text amount to, from a position
/// on; none where one of their numbers has none.
pub open spec fn nanos_from(s: Seq<char>, i: int) -> Option<nat>
    decreases s.len() - i,
{
    let a = number_end(s, i);
    let b = unit_end(s, a);
    if b <= i || b > s.len() {
        Some(0)
    } else {
        match (span_nanos(s.subrange(i, a), s.subrange(a, b)), nanos_from(s, b)) {
            (Some(x), Some(y)) => Some(x + y),
            _ => None,
        }
    }
}

/// 2^64 seconds, in nanoseconds.
pub const TOO_MANY_NANOS: u128 = 18_446_744_073_709_551_616_000_000_000;

/// Whether the spans of time in a text come to less than 2^64 seconds.
pub open spec fn in_range(text: Seq<char>) -> bool {
    nanos_from(text, 0) is Some && nanos_from(text, 0)->0 < TOO_MANY_NANOS
}

/// `kaishin::parse_interval`: the span of time that a text such as `24h` or
/// `1day 6hours` stands for, if it stands for one. The outcome is a function of
/// the text alone. A text of 2^64 seconds or more stands for none, but on some
/// of those the parser panics.
#[verifier::external_body]
fn parse_interval(text: &str) -> (r: Option<(u64, u32)>)
    requires
        in_range(text@),
    ensures
        r == parsed_interval(text@),
{
    kaishin::parse_interval(text).ok().map(|d| (d.as_secs(), d.subsec_nanos()))
}

/// `kaishin::default_interval`: a day.
#[verifier::external_body]
fn default_interval() -> (r: (u64, u32))
    ensures
        r == (86400u64, 0u32),
{
    let d = kaishin::default_interval();
    (d.as_secs(), d.subsec_nanos())
}

/// How many nanoseconds a unit of time has; none are counted for a text that is
/// no unit.
fn nanos_of_unit(u: &str) -> (r: u64)
    ensures
        r == unit_nanos(u@),
{
    if same_text(u, "nanos") || same_text(u, "nsec") || same_text(u, "ns") {
        1
    } else if same_text(u, "usec") || same_text(u, "us") || same_text(u, "µs") {
        1_000
    } else if same_text(u, "millis") || same_text(u, "msec") || same_text(u, "ms") {
        1_000_000
    } else if same_text(u, "seconds") || same_text(u, "second") || same_text(u, "secs")
        || same_text(u, "sec") || same_text(u, "s") {
        1_000_000_000
    } else if same_text(u, "minutes") || same_text(u, "minute") || same_text(u, "min")
        || same_text(u, "mins") || same_text(u, "m") {
        60_000_000_000
    } else if same_text(u, "hours") || same_text(u, "hour") || same_text(u, "hr") || same_text(
        u,
        "hrs",
    ) || same_text(u, "h") {
        3_600_000_000_000
    } else if same_text(u, "days") || same_text(u, "day") || same_text(u, "d") {
        86_400_000_000_000
    } else if same_text(u, "weeks") || same_text(u, "week") || same_text(u, "wk") || same_text(
        u,
        "wks",
    ) || same_text(u, "w") {
        604_800_000_000_000
    } else if same_text(u, "months") || same_text(u, "month") || same_text(u, "M") {
        2_630_016_000_000_000
    } else if same_text(u, "years") || same_text(u, "year") || same_text(u, "yr") || same_text(
        u,
        "yrs",
    ) || same_text(u, "y") {
        31_557_600_000_000_000
    } else {
        0
    }
}

/// Whether a character can stand in the number of a span of time.
fn number_char(c: char) -> (r: bool)
    ensures
        r == in_number(c),
{
    ('0' <= c && c <= '9') || c == '.' || is_white_space(c)
}

proof fn lemma_number_in_grows(s: Seq<char>, n: int)
    requires
        0 <= n <= s.len(),
    ensures
        number_in(s.take(n)) <= number_in(s),
        digits_in(s.take(n)) <= digits_in(s),
    decreases s.len() - n,
{
    if n == s.len() {
        assert(s.take(n) =~= s);
    } else {
        lemma_number_in_grows(s, n + 1);
        assert(s.take(n + 1).drop_last() =~= s.take(n));
    }
}

proof fn lemma_number_in_bound(s: Seq<char>)
    ensures
        number_in(s) < pow(10, digits_in(s)),
        pow(10, digits_in(s)) > 0,
    decreases s.len(),
{
    reveal(pow);
    if s.len() > 0 {
        lemma_number_in_bound(s.drop_last());
    }
}

/// The number that the digits between two positions spell, where it is under
/// 2^64.
fn whole_number(v: &[char], from: usize, to: usize) -> (r: Option<u64>)
    requires
        from <= to <= v@.len(),
    ensures
        match r {
            Some(n) => n == number_in(v@.subrange(from as int, to as int)),
            None => number_in(v@.subrange(from as int, to as int)) > u64::MAX,
        },
{
    let ghost s = v@.subrange(from as int, to as int);
    let mut n: u64 = 0;
    let mut i: usize = from;
    assert(s.take(0) =~= Seq::<char>::empty());
    while i < to
        invariant
            s == v@.subrange(from as int, to as int),
            from <= i <= to <= v@.len(),
            n == number_in(s.take(i - from)),
        decreases to - i,
    {
        assert(s.take(i + 1 - from).drop_last() =~= s.take(i - from));
        assert(s.take(i + 1 - from).last() == v@[i as int]);
        let c = v[i];
        if '0' <= c && c <= '9' {
            let d: u64 = (c as u32 - '0' as u32) as u64;
            if n > (u64::MAX - d) / 10 {
                proof {
                    lemma_number_in_grows(s, i + 1 - from);
                }
                return None;
            }
            n = n * 10 + d;
        }
        i = i + 1;
    }
    assert(s.take(to - from) =~= s);
    Some(n)
}

/// The number that the digits between two positions spell, and the power of ten
/// with as many zeros as there are digits; none for more than 19 digits.
fn decimals(v: &[char], from: usize, to: usize) -> (r: Option<(u64, u64)>)
    requires
        from <= to <= v@.len(),
    ensures
        ({
            let s = v@.subrange(from as int, to as int);
            match r {
                Some((n, d)) => digits_in(s) <= 19 && n == number_in(s) && d == pow(
                    10,
                    digits_in(s),
                ),
                None => digits_in(s) > 19,
            }
        }),
{
    let ghost s = v@.subrange(from as int, to as int);
    let mut n: u64 = 0;
    let mut d: u64 = 1;
    let mut count: usize = 0;
    let mut i: usize = from;
    assert(s.take(0) =~= Seq::<char>::empty());
    proof {
        reveal(pow);
    }
    while i < to
        invariant
            s == v@.subrange(from as int, to as int),
            from <= i <= to <= v@.len(),
            count == digits_in(s.take(i - from)),
            count <= 19,
            n == number_in(s.take(i - from)),
            n < d,
            d == pow(10, count as nat),
        decreases to - i,
    {
        assert(s.take(i + 1 - from).drop_last() =~= s.take(i - from));
        assert(s.take(i + 1 - from).last() == v@[i as int]);
        let c = v[i];
        if '0' <= c && c <= '9' {
            if count == 19 {
                proof {
                    lemma_number_in_grows(s, i + 1 - from);
                }
                return None;
            }
            proof {
                lemma_pow_increases(10, count as nat, 18);
                assert(pow(10, 18) == 1_000_000_000_000_000_000) by {
                    reveal(pow);
                    reveal_with_fuel(pow, 19);
                }
                reveal(pow);
            }
            let x: u64 = (c as u32 - '0' as u32) as u64;
            n = n * 10 + x;
            d = d * 10;
            count = count + 1;
        }
        i = i + 1;
    }
    assert(s.take(to - from) =~= s);
    Some((n, d))
}

/// The nanoseconds in the number of units between two positions; none where the
/// number is too large.
fn nanos_of_span(v: &[char], from: usize, end: usize, unit: &str) -> (r: Option<u128>)
    requires
        from <= end <= v@.len(),
    ensures
        match span_nanos(v@.subrange(from as int, end as int), unit@) {
            Some(x) => r == Some(x as u128) && x <= u128::MAX / 2,
            None => r is None,
        },
{
    let ghost number = v@.subrange(from as int, end as int);
    let ghost p = |c: char| c == '.';
    let mut dot: usize = from;
    while dot < end && v[dot] != '.'
        invariant
            number == v@.subrange(from as int, end as int),
            p == (|c: char| c == '.'),
            from <= dot <= end <= v@.len(),
            forall|k: int| 0 <= k < dot - from ==> !p(#[trigger] number[k]),
        decreases end - dot,
    {
        assert(number[dot - from] == v@[dot as int]);
        dot = dot + 1;
    }
    proof {
        lemma_is_first_index(number, p, dot - from);
        assert(number.take(dot - from) =~= v@.subrange(from as int, dot as int));
        assert(number.skip(dot - from) =~= v@.subrange(dot as int, end as int));
    }
    let unit: u64 = nanos_of_unit(unit);
    match (whole_number(v, from, dot), decimals(v, dot, end)) {
        (Some(whole), Some((n, d))) => {
            proof {
                lemma_number_in_bound(v@.subrange(dot as int, end as int));
                assert(0 <= whole * unit <= 0xffff_ffff_ffff_ffff * 31_557_600_000_000_000)
                    by (nonlinear_arith)
                    requires
                        0 <= whole <= 0xffff_ffff_ffff_ffff,
                        0 <= unit <= 31_557_600_000_000_000,
                ;
                assert(0 <= n * unit <= 0xffff_ffff_ffff_ffff * 31_557_600_000_000_000)
                    by (nonlinear_arith)
                    requires
                        0 <= n <= 0xffff_ffff_ffff_ffff,
                        0 <= unit <= 31_557_600_000_000_000,
                ;
                assert(0 <= (n * unit) / (d as int) <= n * unit) by (nonlinear_arith)
                    requires
                        0 <= n * unit,
                        d > 0,
                ;
            }
            Some(whole as u128 * unit as u128 + n as u128 * unit as u128 / d as u128)
        },
        _ => None,
    }
}

/// Whether the spans of time in a text come to less than 2^64 seconds.
fn is_in_range(text: &str) -> (r: bool)
    ensures
        r == in_range(text@),
{
    let v = chars_of(text);
    let mut total: u128 = 0;
    let mut i: usize = 0;
    while i < v.len()
        invariant
            v@ == text@,
            i <= v@.len(),
            total < TOO_MANY_NANOS,
            nanos_from(text@, 0) is Some <==> nanos_from(text@, i as int) is Some,
            nanos_from(text@, 0) is Some ==> nanos_from(text@, 0)->0 == total + nanos_from(
                text@,
                i as int,
            )->0,
        decreases v@.len() - i,
    {
        let mut a: usize = i;
        while a < v.len() && number_char(v[a])
            invariant
                v@ == text@,
                i <= a <= v@.len(),
                number_end(text@, i as int) == number_end(text@, a as int),
            decreases v@.len() - a,
        {
            a = a + 1;
        }
        let mut b: usize = a;
        while b < v.len() && !number_char(v[b])
            invariant
                v@ == text@,
                a <= b <= v@.len(),
                unit_end(text@, a as int) == unit_end(text@, b as int),
            decreases v@.len() - b,
        {
            b = b + 1;
        }
        assert(a == number_end(text@, i as int));
        assert(b == unit_end(text@, a as int));
        assert(b > i);
        let unit = string_of(&v, a, b);
        match nanos_of_span(&v, i, a, unit.as_str()) {
            Some(x) => {
                if x >= TOO_MANY_NANOS - total {
                    return false;
                }
                total = total + x;
            },
            None => {
                return false;
            },
        }
        i = b;
    }
    true
}

/// The interval for a setting and for what it was read as: that, or a day.
pub open spec fn interval_or_day(read: Option<(u64, u32)>) -> Interval {
    match read {
        Some((secs, nanos)) => Interval { secs, nanos },
        None => Interval { secs: 86400, nanos: 0 },
    }
}

/// The interval for what a setting was read as: that, or a day.
pub fn interval_from(read: Option<(u64, u32)>) -> (r: Interval)
    ensures
        r == interval_or_day(read),
{
    match read {
        Some((secs, nanos)) => Interval { secs, nanos },
        None => {
            let (secs, nanos) = default_interval();
            Interval { secs, nanos }
        },
    }
}

/// How long to wait between two checks: as the setting says, or a day when
/// there is none, it cannot be read, or it comes to 2^64 seconds or more.
pub fn check_interval(setting: Option<&str>) -> (r: Interval)
    ensures
        r == (match opt_str(setting) {
            Some(s) => if in_range(s) {
                interval_or_day(parsed_interval(s))
            } else {
                interval_or_day(None)
            },
            None => interval_or_day(None),
        }),
{
    match setting {
        Some(s) => {
            if is_in_range(s) {
                interval_from(parse_interval(s))
            } else {
                interval_from(None)
            }
        },
        None => interval_from(None),
    }
}

/// What goes on in the background about a new release.
#[derive(Debug, Clone, Copy, PartialEq, Eq, Structural)]
pub enum AutoUpdateStep {
    /// A newer release is known from before, and is announced.
    NotifyCached,
    /// The latest release is being asked for.
    NotifyPending,
    /// A newer release is being installed.
    Installing,
}

/// What to do in the background for a mode: announcing asks for the latest
/// release when a check is due, and else makes do with what is known from
/// before; installing looks after its own schedule.
pub fn maybe_spawn_auto_update_check(mode: AutoUpdateMode, check_due: bool, cached: bool) -> (r:
    Option<AutoUpdateStep>)
    ensures
        r == (match mode {
            AutoUpdateMode::Off => None,
            AutoUpdateMode::Notify => if check_due {
                Some(AutoUpdateStep::NotifyPending)
            } else if cached {
                Some(AutoUpdateStep::NotifyCached)
            } else {
                None
            },
            AutoUpdateMode::Install => Some(AutoUpdateStep::Installing),
        }),
{
    match mode {
        AutoUpdateMode::Off => None,
        AutoUpdateMode::Notify => {
            if check_due {
                Some(AutoUpdateStep::NotifyPending)
            } else if cached {
                Some(AutoUpdateStep::NotifyCached)
            } else {
                None
            }
        },
        AutoUpdateMode::Install => Some(AutoUpdateStep::Installing),
    }
}

/// How the background work stood when the command ended.
#[derive(Debug)]
pub enum AutoUpdateReply {
    /// It succeeded, with the tag of the newer release if there is one.
    Done(Option<String>),
    /// It failed, or did not end in time.
    Unfinished,
}

/// What is said about the background work.
#[derive(Debug)]
pub enum Announcement {
    /// Nothing.
    Silent,
    /// The banner for the release that was just found.
    FreshBanner,
    /// The banner for the release known from before.
    CachedBanner,
    /// This line.
    Line(String),
}

/// A tag without the `v`s that it starts with.
pub open spec fn version_of(tag: Seq<char>) -> Seq<char>
    decreases tag.len(),
{
    if tag.len() > 0 && tag[0] == 'v' {
        version_of(tag.skip(1))
    } else {
        tag
    }
}

/// A tag without the `v`s that it starts with.
pub fn version_text(tag: &str) -> (r: String)
    ensures
        r@ == version_of(tag@),
{
    let v = chars_of(tag);
    let mut from: usize = 0;
    assert(v@.skip(0) =~= v@);
    while from < v.len() && v[from] == 'v'
        invariant
            v@ == tag@,
            from <= v@.len(),
            version_of(tag@) == version_of(v@.skip(from as int)),
        decreases v@.len() - from,
    {
        assert(v@.skip(from as int).skip(1) =~= v@.skip(from + 1));
        from = from + 1;
    }
    let r = string_of(&v, from, v.len());
    assert(r@ =~= v@.skip(from as int));
    r
}

/// What is said at the end of a command about the background work: at most one
/// thing, and nothing unless a newer release is known or was installed.
pub fn finalize_auto_update_check(step: AutoUpdateStep, reply: AutoUpdateReply, cached: bool) -> (r:
    Announcement)
    ensures
        match (step, reply) {
            (AutoUpdateStep::NotifyCached, _) => r is CachedBanner,
            (AutoUpdateStep::NotifyPending, AutoUpdateReply::Done(Some(_))) => r is FreshBanner,
            (AutoUpdateStep::NotifyPending, AutoUpdateReply::Done(None)) => r is Silent,
            (AutoUpdateStep::NotifyPending, AutoUpdateReply::Unfinished) => if cached {
                r is CachedBanner
            } else {
                r is Silent
            },
            (AutoUpdateStep::Installing, AutoUpdateReply::Done(Some(tag))) => r matches
                Announcement::Line(line) && line@ == "✓ shoka "@ + version_of(tag@)
                + " installed in the background — restart to apply."@,
            (AutoUpdateStep::Installing, _) => r is Silent,
        },
{
    match step {
        AutoUpdateStep::NotifyCached => Announcement::CachedBanner,
        AutoUpdateStep::NotifyPending => match reply {
            AutoUpdateReply::Done(Some(_)) => Announcement::FreshBanner,
            AutoUpdateReply::Done(None) => Announcement::Silent,
            AutoUpdateReply::Unfinished => {
                if cached {
                    Announcement::CachedBanner
                } else {
                    Announcement::Silent
                }
            },
        },
        AutoUpdateStep::Installing => match reply {
            AutoUpdateReply::Done(Some(tag)) => Announcement::Line(
                "✓ shoka ".to_owned().concat(version_text(tag.as_str()).as_str()).concat(
                    " installed in the background — restart to apply.",
                ),
            ),
            _ => Announcement::Silent,
        },
    }
}

/// How the program is asked to replace itself.
#[derive(Debug, Clone, Copy, PartialEq, Eq, Structural)]
pub struct SelfUpdatePlan {
    /// Do not ask before installing.
    pub yes: bool,
    /// Only tell whether there is a new release.
    pub check_only: bool,
    /// There is nobody to ask.
    pub non_interactive: bool,
}

/// How the program is asked to replace itself. Nobody is asked anything where
/// the input is no terminal.
pub fn run_self_update(yes: bool, check_only: bool, stdin_is_terminal: bool) -> (r: SelfUpdatePlan)
    ensures
        r == (SelfUpdatePlan { yes, check_only, non_interactive: !stdin_is_terminal }),
{
    SelfUpdatePlan { yes, check_only, non_interactive: !stdin_is_terminal }
}

/// The kill switch is off where it is not set, is blank, is `0`, or is `false` in
/// whatever case, with white space around it or not. With any other value it is on.
pub proof fn law_kill_switch(value: Seq<char>)
    ensures
        !engages(None),
        engages(Some(value)) == ({
            let t = trimmed(value);
            &&& !blank_text(value)
            &&& t != seq!['0']
            &&& !(t.len() == 5 && same_letter(t[0], 'f') && same_letter(t[1], 'a') && same_letter(
                t[2],
                'l',
            ) && same_letter(t[3], 's') && same_letter(t[4], 'e'))
        }),
{
    reveal_strlit("0");
    reveal_strlit("false");
    let t = trimmed(value);
    let f = "false"@;
    let z = "0"@;
    assert(z =~= seq!['0']);
    assert(f[0] == 'f' && f[1] == 'a' && f[2] == 'l' && f[3] == 's' && f[4] == 'e');
    law_trimmed(value);
    if t.len() == 0 {
        let (a, b) = choose|before: Seq<char>, after: Seq<char>|
            value == #[trigger] (before + t + after) && blank_text(before) && blank_text(after);
        assert forall|i: int| 0 <= i < value.len() implies white_space(#[trigger] value[i]) by {
            if i < a.len() {
                assert(value[i] == a[i]);
            } else {
                assert(value[i] == b[i - a.len()]);
            }
        }
    }
    law_case_of_letters(t, z);
    law_case_of_letters(t, f);
    if ascii_folded(t) == ascii_folded(z) {
        assert(same_letter(t[0], z[0]));
        assert(t =~= z);
    }
    if ascii_folded(t) == ascii_folded(f) {
        assert(same_letter(t[0], f[0]) && same_letter(t[1], f[1]) && same_letter(t[2], f[2])
            && same_letter(t[3], f[3]) && same_letter(t[4], f[4]));
    }
    if t.len() == 5 && same_letter(t[0], 'f') && same_letter(t[1], 'a') && same_letter(t[2], 'l')
        && same_letter(t[3], 's') && same_letter(t[4], 'e') {
        assert forall|i: int| 0 <= i < t.len() implies #[trigger] same_letter(t[i], f[i]) by {
            assert(i == 0 || i == 1 || i == 2 || i == 3 || i == 4);
        }
    }
}

/// A tag is its version behind any number of `v`s, and the version begins with none.
pub proof fn law_version(tag: Seq<char>)
    ensures
        ({
            let v = version_of(tag);
            let n = tag.len() - v.len();
            &&& v.len() <= tag.len()
            &&& v == tag.skip(n)
            &&& v.len() > 0 ==> v[0] != 'v'
            &&& forall|i: int| 0 <= i < n ==> #[trigger] tag[i] == 'v'
        }),
    decreases tag.len(),
{
    let v = version_of(tag);
    if tag.len() > 0 && tag[0] == 'v' {
        let rest = tag.skip(1);
        law_version(rest);
        let n = tag.len() - v.len();
        assert(rest.skip(n - 1) =~= tag.skip(n));
        assert forall|i: int| 0 <= i < n implies #[trigger] tag[i] == 'v' by {
            if i > 0 {
                assert(rest[i - 1] == tag[i]);
            }
        }
    } else {
        assert(tag.skip(0) =~= tag);
    }
}

/// What was read is the interval; where nothing could be, it is a day.
pub proof fn law_interval(secs: u64, nanos: u32)
    ensures
        interval_or_day(Some((secs, nanos))).secs == secs,
        interval_or_day(Some((secs, nanos))).nanos == nanos,
        interval_or_day(None).secs == 24 * 60 * 60,
        interval_or_day(None).nanos == 0,
{
}

/// A number and a unit amount to that many of the unit, where the number is under
/// 2^64 and the unit holds nothing that could stand in a number.
pub proof fn law_span_of_time(n: u64, unit: Seq<char>)
    requires
        unit.len() > 0,
        forall|i: int| 0 <= i < unit.len() ==> !in_number(#[trigger] unit[i]),
    ensures
        nanos_from(decimal(n as nat) + unit, 0) == Some(n as nat * unit_nanos(unit) as nat),
        in_range(decimal(n as nat) + unit) == (n * unit_nanos(unit) < TOO_MANY_NANOS),
{
    let digits = decimal(n as nat);
    let text = digits + unit;
    law_decimal_reads_back(n as nat);
    let k = digits.len() as int;
    assert forall|i: int| 0 <= i < k implies in_number(#[trigger] text[i]) by {
        assert(text[i] == digits[i]);
    }
    assert forall|i: int| k <= i < text.len() implies !in_number(#[trigger] text[i]) by {
        assert(text[i] == unit[i - k]);
    }
    lemma_number_end(text, 0, k);
    lemma_unit_end(text, k);
    assert(text.subrange(0, k) =~= digits);
    assert(text.subrange(k, text.len() as int) =~= unit);
    assert(number_end(text, text.len() as int) == text.len());
    assert(nanos_from(text, text.len() as int) == Some(0nat));
    let p = |c: char| c == '.';
    assert forall|j: int| 0 <= j < k implies !p(#[trigger] digits[j]) by {}
    lemma_is_first_index(digits, p, k);
    assert(digits.take(k) =~= digits);
    assert(digits.skip(k) =~= Seq::empty());
    lemma_number_read(digits);
    reveal(pow);
    assert(pow(10, 0) == 1);
    assert(span_nanos(digits, unit) == Some(n as nat * unit_nanos(unit) as nat));
}

proof fn lemma_number_end(s: Seq<char>, i: int, k: int)
    requires
        0 <= i <= k <= s.len(),
        forall|j: int| i <= j < k ==> in_number(#[trigger] s[j]),
        k < s.len() ==> !in_number(s[k]),
    ensures
        number_end(s, i) == k,
    decreases k - i,
{
    if i < k {
        lemma_number_end(s, i + 1, k);
    }
}

proof fn lemma_unit_end(s: Seq<char>, i: int)
    requires
        0 <= i <= s.len(),
        forall|j: int| i <= j < s.len() ==> !in_number(#[trigger] s[j]),
    ensures
        unit_end(s, i) == s.len(),
    decreases s.len() - i,
{
    if i < s.len() {
        lemma_unit_end(s, i + 1);
    }
}

proof fn lemma_number_read(s: Seq<char>)
    requires
        forall|i: int| 0 <= i < s.len() ==> '0' <= #[trigger] s[i] <= '9',
    ensures
        number_in(s) == number_read(s),
    decreases s.len(),
{
    if s.len() > 0 {
        let front = s.drop_last();
        assert forall|i: int| 0 <= i < front.len() implies '0' <= #[trigger] front[i] <= '9' by {
            assert(front[i] == s[i]);
        }
        lemma_number_read(front);
        assert('0' <= s[s.len() - 1] <= '9');
    }
}

/// The units of time go up as they should: a thousand of each for the next up to the
/// second, then sixty, sixty, twenty-four and seven. A year has 365 and a quarter days,
/// and a month 30.44. A unit may be spelled in several ways, and no unit counts for
/// nothing.
pub proof fn law_units()
    ensures
        unit_nanos("ns"@) == 1,
        unit_nanos("us"@) == 1000 * unit_nanos("ns"@),
        unit_nanos("ms"@) == 1000 * unit_nanos("us"@),
        unit_nanos("s"@) == 1000 * unit_nanos("ms"@),
        unit_nanos("m"@) == 60 * unit_nanos("s"@),
        unit_nanos("h"@) == 60 * unit_nanos("m"@),
        unit_nanos("d"@) == 24 * unit_nanos("h"@),
        unit_nanos("w"@) == 7 * unit_nanos("d"@),
        unit_nanos("y"@) * 4 == 1461 * unit_nanos("d"@),
        unit_nanos("sec"@) == unit_nanos("s"@) && unit_nanos("seconds"@) == unit_nanos("s"@),
        unit_nanos("min"@) == unit_nanos("m"@) && unit_nanos("minutes"@) == unit_nanos("m"@),
        unit_nanos("hour"@) == unit_nanos("h"@) && unit_nanos("hours"@) == unit_nanos("h"@),
        unit_nanos("day"@) == unit_nanos("d"@) && unit_nanos("days"@) == unit_nanos("d"@),
        unit_nanos("week"@) == unit_nanos("w"@) && unit_nanos("weeks"@) == unit_nanos("w"@),
        unit_nanos("year"@) == unit_nanos("y"@) && unit_nanos("years"@) == unit_nanos("y"@),
        unit_nanos("nanos"@) == unit_nanos("ns"@) && unit_nanos("nsec"@) == unit_nanos("ns"@),
        unit_nanos("usec"@) == unit_nanos("us"@) && unit_nanos("µs"@) == unit_nanos("us"@),
        unit_nanos("millis"@) == unit_nanos("ms"@) && unit_nanos("msec"@) == unit_nanos("ms"@),
        unit_nanos("second"@) == unit_nanos("s"@) && unit_nanos("secs"@) == unit_nanos("s"@),
        unit_nanos("minute"@) == unit_nanos("m"@) && unit_nanos("mins"@) == unit_nanos("m"@),
        unit_nanos("hr"@) == unit_nanos("h"@) && unit_nanos("hrs"@) == unit_nanos("h"@),
        unit_nanos("wk"@) == unit_nanos("w"@) && unit_nanos("wks"@) == unit_nanos("w"@),
        unit_nanos("yr"@) == unit_nanos("y"@) && unit_nanos("yrs"@) == unit_nanos("y"@),
        unit_nanos("M"@) * 100 == 3044 * unit_nanos("d"@),
        unit_nanos("month"@) == unit_nanos("M"@) && unit_nanos("months"@) == unit_nanos("M"@),
        unit_nanos(Seq::empty()) == 0,
{
    reveal_strlit("nanos");
    reveal_strlit("nsec");
    reveal_strlit("ns");
    reveal_strlit("usec");
    reveal_strlit("us");
    reveal_strlit("µs");
    reveal_strlit("millis");
    reveal_strlit("msec");
    reveal_strlit("ms");
    reveal_strlit("seconds");
    reveal_strlit("second");
    reveal_strlit("secs");
    reveal_strlit("sec");
    reveal_strlit("s");
    reveal_strlit("minutes");
    reveal_strlit("minute");
    reveal_strlit("min");
    reveal_strlit("mins");
    reveal_strlit("m");
    reveal_strlit("hours");
    reveal_strlit("hour");
    reveal_strlit("hr");
    reveal_strlit("hrs");
    reveal_strlit("h");
    reveal_strlit("days");
    reveal_strlit("day");
    reveal_strlit("d");
    reveal_strlit("weeks");
    reveal_strlit("week");
    reveal_strlit("wk");
    reveal_strlit("wks");
    reveal_strlit("w");
    reveal_strlit("months");
    reveal_strlit("month");
    reveal_strlit("M");
    reveal_strlit("years");
    reveal_strlit("year");
    reveal_strlit("yr");
    reveal_strlit("yrs");
    reveal_strlit("y");
    assert("s"@.len() == 1 && "m"@.len() == 1 && "h"@.len() == 1 && "d"@.len() == 1
        && "w"@.len() == 1 && "M"@.len() == 1 && "y"@.len() == 1);
    assert("s"@[0] == 's' && "m"@[0] == 'm' && "h"@[0] == 'h' && "d"@[0] == 'd' && "w"@[0] == 'w'
        && "M"@[0] == 'M' && "y"@[0] == 'y');
    assert("ns"@.len() == 2 && "us"@.len() == 2 && "µs"@.len() == 2 && "ms"@.len() == 2
        && "hr"@.len() == 2 && "wk"@.len() == 2 && "yr"@.len() == 2);
    assert("ns"@[0] == 'n' && "us"@[0] == 'u' && "µs"@[0] == 'µ' && "ms"@[0] == 'm'
        && "hr"@[0] == 'h' && "wk"@[0] == 'w' && "yr"@[0] == 'y');
    assert("sec"@.len() == 3 && "min"@.len() == 3 && "hrs"@.len() == 3 && "day"@.len() == 3
        && "wks"@.len() == 3 && "yrs"@.len() == 3);
    assert("sec"@[0] == 's' && "min"@[0] == 'm' && "hrs"@[0] == 'h' && "day"@[0] == 'd'
        && "wks"@[0] == 'w' && "yrs"@[0] == 'y');
    assert("nsec"@.len() == 4 && "usec"@.len() == 4 && "msec"@.len() == 4 && "secs"@.len() == 4
        && "mins"@.len() == 4 && "hour"@.len() == 4 && "days"@.len() == 4 && "week"@.len() == 4
        && "year"@.len() == 4);
    assert("nsec"@[0] == 'n' && "usec"@[0] == 'u' && "msec"@[0] == 'm' && "msec"@[1] == 's'
        && "secs"@[0] == 's' && "mins"@[0] == 'm' && "mins"@[1] == 'i' && "hour"@[0] == 'h'
        && "days"@[0] == 'd' && "week"@[0] == 'w' && "year"@[0] == 'y');
    assert("nanos"@.len() == 5 && "hours"@.len() == 5 && "weeks"@.len() == 5 && "month"@.len() == 5
        && "years"@.len() == 5);
    assert("nanos"@[0] == 'n' && "hours"@[0] == 'h' && "weeks"@[0] == 'w' && "month"@[0] == 'm'
        && "years"@[0] == 'y');
    assert("millis"@.len() == 6 && "second"@.len() == 6 && "minute"@.len() == 6
        && "months"@.len() == 6);
    assert("millis"@[0] == 'm' && "millis"@[1] == 'i' && "millis"@[2] == 'l' && "second"@[0] == 's'
        && "minute"@[0] == 'm' && "minute"@[1] == 'i' && "minute"@[2] == 'n' && "months"@[0] == 'm'
        && "months"@[1] == 'o');
    assert("seconds"@.len() == 7 && "minutes"@.len() == 7);
    assert("seconds"@[0] == 's' && "minutes"@[0] == 'm');
    let none = Seq::<char>::empty();
    assert(none.len() == 0);
}

} // verus!
