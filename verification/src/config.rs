//! Configuration: its schema, how a profile is applied to it, and where a
//! repository is cloned to.
//!
//! The profile in force is the one named on the command line, else in the
//! environment, else by `global.default_profile`. Its fields replace those of
//! `[global]` where they are set.
//!
//! A clone goes where the profile's `root` says, where the profile has one;
//! else where the first matching route says; else to `[global]`'s root. A
//! profile without a `root` stays out of clone routing altogether.
//!
//! A route's pattern is `host:<host>`, `host:<host>/<owner>` or `/<regex>/`,
//! matched against `host/owner/name`.
use regex::Regex;
use vstd::prelude::*;
use vstd::string::*;

use crate::fspath::{
    absolute_path, ends_with_steps, file_name, file_name_of, from_root, join,
    law_parent_and_file_name, made_absolute, parent, parent_of, path_join, path_key, plain_part,
    plain_parts, rooted, same_path, windows,
};
use crate::paths::ShokaPaths;
use crate::seqs::{
    first_index, lemma_filter_selects, lemma_first_index, lemma_is_first_index, selects,
};
use crate::state::{Repo, RepoView};
use crate::text::{
    chars_of, clone_opt, clone_texts, decimal, decimal_of, has, lemma_stands_between,
    lemma_stands_in_longer, lemma_told_in_order, occurs_at, opt_str, opt_text, same_text, stands_at,
    string_of, texts,
};

verus! {

/// Which version control system a checkout is driven with.
#[derive(Debug, Clone, Copy, PartialEq, Eq, Structural)]
pub enum VcsDefault {
    /// Decided by what is found in the working tree.
    Auto,
    Git,
    Jj,
}

impl Default for VcsDefault {
    fn default() -> (r: Self)
        ensures
            r == VcsDefault::Auto,
    {
        VcsDefault::Auto
    }
}

/// Which protocol a shorthand is cloned over.
#[derive(Debug, Clone, Copy, PartialEq, Eq, Structural)]
pub enum Protocol {
    Https,
    Ssh,
}

impl Default for Protocol {
    fn default() -> (r: Self)
        ensures
            r == Protocol::Https,
    {
        Protocol::Https
    }
}

/// What happens in the background about new releases.
#[derive(Debug, Clone, Copy, PartialEq, Eq, Structural)]
pub enum AutoUpdateMode {
    /// Nothing.
    Off,
    /// A newer release is announced.
    Notify,
    /// A newer release is installed.
    Install,
}

impl Default for AutoUpdateMode {
    fn default() -> (r: Self)
        ensures
            r == AutoUpdateMode::Off,
    {
        AutoUpdateMode::Off
    }
}

/// The text by which templates and files name a version control system.
pub open spec fn vcs_text(v: VcsDefault) -> Seq<char> {
    match v {
        VcsDefault::Auto => "auto"@,
        VcsDefault::Git => "git"@,
        VcsDefault::Jj => "jj"@,
    }
}

/// The text by which templates and files name a version control system.
pub fn vcs_str(v: VcsDefault) -> (r: &'static str)
    ensures
        r@ == vcs_text(v),
{
    match v {
        VcsDefault::Auto => "auto",
        VcsDefault::Git => "git",
        VcsDefault::Jj => "jj",
    }
}

/// The text by which templates and files name a protocol.
pub open spec fn protocol_text(p: Protocol) -> Seq<char> {
    match p {
        Protocol::Https => "https"@,
        Protocol::Ssh => "ssh"@,
    }
}

/// The text by which templates and files name a protocol.
pub fn protocol_str(p: Protocol) -> (r: &'static str)
    ensures
        r@ == protocol_text(p),
{
    match p {
        Protocol::Https => "https",
        Protocol::Ssh => "ssh",
    }
}

/// The layout of a configuration that sets none.
pub const DEFAULT_LAYOUT: &'static str = "{{ root }}/{{ host }}/{{ owner }}/{{ name }}";

/// `[global.new]`: defaults of the `new` command.
#[derive(Debug)]
pub struct NewConfig {
    /// The preset that is applied to a new repository.
    pub preset: Option<String>,
}

impl Default for NewConfig {
    fn default() -> (r: Self)
        ensures
            r.preset is None,
    {
        NewConfig { preset: None }
    }
}

/// `[global.ui]`.
#[derive(Debug)]
pub struct UiConfig {
    pub status_cache_ttl_secs: u64,
    pub tui_refresh_ms: u64,
    /// Owners counted as one's own; the dashboard starts narrowed to them.
    pub own_owners: Vec<String>,
    /// Rows that the `cd` picker shows at once.
    pub cd_page_size: usize,
}

/// The contents of a [`UiConfig`].
#[verifier::ext_equal]
pub struct UiView {
    pub status_cache_ttl_secs: u64,
    pub tui_refresh_ms: u64,
    pub own_owners: Seq<Seq<char>>,
    pub cd_page_size: usize,
}

impl View for UiConfig {
    type V = UiView;

    open spec fn view(&self) -> UiView {
        UiView {
            status_cache_ttl_secs: self.status_cache_ttl_secs,
            tui_refresh_ms: self.tui_refresh_ms,
            own_owners: texts(self.own_owners@),
            cd_page_size: self.cd_page_size,
        }
    }
}

impl Default for UiConfig {
    fn default() -> (r: Self)
        ensures
            r@ == (UiView {
                status_cache_ttl_secs: 60,
                tui_refresh_ms: 250,
                own_owners: Seq::empty(),
                cd_page_size: 15,
            }),
    {
        let r = UiConfig {
            status_cache_ttl_secs: 60,
            tui_refresh_ms: 250,
            own_owners: Vec::new(),
            cd_page_size: 15,
        };
        assert(texts(r.own_owners@) =~= Seq::<Seq<char>>::empty());
        r
    }
}

/// `[global.shell]`.
#[derive(Debug)]
pub struct ShellConfig {
    /// Name of the shell function that `init-shell` emits.
    pub cd_command_name: String,
}

impl Default for ShellConfig {
    fn default() -> (r: Self)
        ensures
            r.cd_command_name@ == "s"@,
    {
        ShellConfig { cd_command_name: "s".to_owned() }
    }
}

/// `[global.cache]`.
#[derive(Debug, Clone, Copy)]
pub struct CacheConfig {
    /// A refresh runs in the background after a command.
    pub background_refresh: bool,
    /// A row refreshed within this many seconds is left alone.
    pub refresh_threshold_secs: u64,
    /// How many repositories are refreshed at once.
    pub parallel_repos: usize,
}

impl Default for CacheConfig {
    fn default() -> (r: Self)
        ensures
            r.background_refresh,
            r.refresh_threshold_secs == 60,
            r.parallel_repos == 8,
    {
        CacheConfig { background_refresh: true, refresh_threshold_secs: 60, parallel_repos: 8 }
    }
}

/// `[global]`.
#[derive(Debug)]
pub struct GlobalConfig {
    /// Directory under which repositories are cloned.
    pub root: Option<String>,
    /// Template of a clone's path.
    pub layout: String,
    pub default_vcs: VcsDefault,
    pub default_protocol: Protocol,
    pub default_host: String,
    pub default_profile: Option<String>,
    pub exec_concurrency: usize,
    pub auto_update: AutoUpdateMode,
    pub update_check_interval: Option<String>,
    pub ui: UiConfig,
    pub shell: ShellConfig,
    pub cache: CacheConfig,
    pub new: NewConfig,
}

impl GlobalConfig {
    /// What holds where nothing is set.
    pub open spec fn is_default(self) -> bool {
        &&& self.root is None
        &&& self.layout@ == DEFAULT_LAYOUT@
        &&& self.default_vcs == VcsDefault::Auto
        &&& self.default_protocol == Protocol::Https
        &&& self.default_host@ == "github.com"@
        &&& self.default_profile is None
        &&& self.exec_concurrency == 8
        &&& self.auto_update == AutoUpdateMode::Off
        &&& self.update_check_interval is None
        &&& self.ui@ == (UiView {
            status_cache_ttl_secs: 60,
            tui_refresh_ms: 250,
            own_owners: Seq::empty(),
            cd_page_size: 15,
        })
        &&& self.shell.cd_command_name@ == "s"@
        &&& self.cache == (CacheConfig {
            background_refresh: true,
            refresh_threshold_secs: 60,
            parallel_repos: 8,
        })
        &&& self.new.preset is None
    }
}

impl Default for GlobalConfig {
    fn default() -> (r: Self)
        ensures
            r.is_default(),
    {
        GlobalConfig {
            root: None,
            layout: DEFAULT_LAYOUT.to_owned(),
            default_vcs: VcsDefault::Auto,
            default_protocol: Protocol::Https,
            default_host: "github.com".to_owned(),
            default_profile: None,
            exec_concurrency: 8,
            auto_update: AutoUpdateMode::Off,
            update_check_interval: None,
            ui: UiConfig::default(),
            shell: ShellConfig::default(),
            cache: CacheConfig::default(),
            new: NewConfig::default(),
        }
    }
}

/// A `[[routes]]` entry: which clones it is for, and what it sets for them.
#[derive(Debug)]
pub struct Route {
    pub pattern: String,
    pub root: Option<String>,
    pub layout: Option<String>,
    pub default_vcs: Option<VcsDefault>,
    pub default_protocol: Option<Protocol>,
}

impl Clone for Route {
    fn clone(&self) -> (r: Self)
        ensures
            r == *self,
    {
        Route {
            pattern: self.pattern.clone(),
            root: clone_opt(&self.root),
            layout: clone_opt(&self.layout),
            default_vcs: self.default_vcs,
            default_protocol: self.default_protocol,
        }
    }
}

/// `[profiles.<name>]`: what replaces `[global]`'s fields.
#[derive(Debug)]
pub struct ProfileConfig {
    pub root: Option<String>,
    pub layout: Option<String>,
    pub default_vcs: Option<VcsDefault>,
    pub default_protocol: Option<Protocol>,
    pub default_host: Option<String>,
    pub exec_concurrency: Option<usize>,
    /// `git config` keys and values, each key once.
    pub git_config: Vec<(String, String)>,
}

impl Default for ProfileConfig {
    fn default() -> (r: Self)
        ensures
            r.root is None,
            r.layout is None,
            r.default_vcs is None,
            r.default_protocol is None,
            r.default_host is None,
            r.exec_concurrency is None,
            r.git_config@ == Seq::<(String, String)>::empty(),
    {
        ProfileConfig {
            root: None,
            layout: None,
            default_vcs: None,
            default_protocol: None,
            default_host: None,
            exec_concurrency: None,
            git_config: Vec::new(),
        }
    }
}

/// The texts of keys and values.
pub open spec fn pair_texts(v: Seq<(String, String)>) -> Seq<(Seq<char>, Seq<char>)> {
    v.map_values(|p: (String, String)| (p.0@, p.1@))
}

/// A copy of keys and values.
fn clone_pairs(v: &Vec<(String, String)>) -> (r: Vec<(String, String)>)
    ensures
        pair_texts(r@) == pair_texts(v@),
{
    let mut out: Vec<(String, String)> = Vec::new();
    let mut i: usize = 0;
    while i < v.len()
        invariant
            i <= v@.len(),
            pair_texts(out@) == pair_texts(v@).take(i as int),
        decreases v@.len() - i,
    {
        let ghost was = pair_texts(out@);
        out.push((v[i].0.clone(), v[i].1.clone()));
        assert(pair_texts(out@) =~= was.push((v@[i as int].0@, v@[i as int].1@)));
        assert(pair_texts(v@).take(i + 1) =~= pair_texts(v@).take(i as int).push(
            pair_texts(v@)[i as int],
        ));
        i = i + 1;
    }
    assert(pair_texts(v@).take(i as int) =~= pair_texts(v@));
    out
}

/// Whether no two pairs have the same first text.
pub open spec fn each_once<T>(pairs: Seq<(String, T)>) -> bool {
    forall|i: int, j: int|
        #![trigger pairs[i], pairs[j]]
        0 <= i < j < pairs.len() ==> pairs[i].0@ != pairs[j].0@
}

impl ProfileConfig {
    /// Each `git config` key occurs once.
    pub open spec fn wf(self) -> bool {
        each_once(self.git_config@)
    }
}

/// The configuration as written: `[global]`, the routes in order, and the
/// profiles, each name once.
#[derive(Debug)]
pub struct ShokaConfig {
    pub global: GlobalConfig,
    pub routes: Vec<Route>,
    pub profiles: Vec<(String, ProfileConfig)>,
}

impl Default for ShokaConfig {
    fn default() -> (r: Self)
        ensures
            r.global.is_default(),
            r.routes@ == Seq::<Route>::empty(),
            r.profiles@ == Seq::<(String, ProfileConfig)>::empty(),
            r.wf(),
    {
        ShokaConfig { global: GlobalConfig::default(), routes: Vec::new(), profiles: Vec::new() }
    }
}

/// What `Regex::new` says against a pattern: the text of its error, or
/// nothing where the pattern compiles.
pub uninterp spec fn regex_fault(pattern: Seq<char>) -> Option<Seq<char>>;

/// The pattern that a regex was made from, where `Regex::new` made it.
pub uninterp spec fn regex_pattern(re: Regex) -> Option<Seq<char>>;

/// Whether the regex that `Regex::new` makes from `pattern` matches somewhere
/// in `text`.
pub uninterp spec fn regex_accepts(pattern: Seq<char>, text: Seq<char>) -> bool;

/// A compiled regular expression of the `regex` crate.
#[verifier::external_type_specification]
#[verifier::external_body]
pub struct ExRegex(Regex);

/// `Regex::new`: whether the pattern compiles, and the text of the error where
/// it does not, depend on the pattern alone; a regex keeps its pattern.
#[verifier::external_body]
fn compile_regex(pattern: &str) -> (r: Result<Regex, String>)
    ensures
        match r {
            Ok(re) => regex_fault(pattern@) is None && regex_pattern(re) == Some(pattern@),
            Err(e) => regex_fault(pattern@) == Some(e@),
        },
{
    Regex::new(pattern).map_err(|e| e.to_string())
}

/// `Regex::is_match`, of a regex made by `Regex::new`: whether there is a match
/// anywhere in the text, which depends on the pattern and the text alone.
#[verifier::external_body]
fn regex_is_match(re: &Regex, text: &str) -> (r: bool)
    requires
        regex_pattern(*re) is Some,
    ensures
        r == regex_accepts(regex_pattern(*re)->0, text@),
{
    re.is_match(text)
}

/// A regular expression, compiled from its pattern.
#[derive(Debug)]
pub struct RouteRegex {
    re: Regex,
}

impl RouteRegex {
    #[verifier::type_invariant]
    closed spec fn from_pattern(self) -> bool {
        regex_pattern(self.re) is Some
    }

    /// The pattern.
    pub closed spec fn pattern(self) -> Seq<char> {
        regex_pattern(self.re)->0
    }

    /// Compiles a pattern; else what is wrong with it.
    fn compile(pattern: &str) -> (r: Result<RouteRegex, String>)
        ensures
            match r {
                Ok(re) => regex_fault(pattern@) is None && re.pattern() == pattern@,
                Err(e) => regex_fault(pattern@) == Some(e@),
            },
    {
        match compile_regex(pattern) {
            Ok(re) => Ok(RouteRegex { re }),
            Err(e) => Err(e),
        }
    }

    /// Whether the expression matches somewhere in the text.
    pub fn is_match(&self, text: &str) -> (r: bool)
        ensures
            r == regex_accepts(self.pattern(), text@),
    {
        proof {
            use_type_invariant(self);
        }
        regex_is_match(&self.re, text)
    }
}

/// A route's pattern, compiled.
#[derive(Debug)]
pub enum PatternKind {
    /// `host:<host>`: the host, and everything on it.
    HostExact(String),
    /// `host:<host>/<owner>`: the owner on the host, and everything of theirs.
    HostOwner(String),
    /// `/<regex>/`: what the regex matches.
    Regex(RouteRegex),
}

/// What a [`PatternKind`] was compiled from.
#[verifier::ext_equal]
pub enum PatternView {
    HostExact(Seq<char>),
    HostOwner(Seq<char>),
    Regex(Seq<char>),
}

impl View for PatternKind {
    type V = PatternView;

    open spec fn view(&self) -> PatternView {
        match self {
            PatternKind::HostExact(h) => PatternView::HostExact(h@),
            PatternKind::HostOwner(h) => PatternView::HostOwner(h@),
            PatternKind::Regex(re) => PatternView::Regex(re.pattern()),
        }
    }
}

/// `text` is `prefix`, or goes on after it with a `/`.
pub open spec fn at_or_below(text: Seq<char>, prefix: Seq<char>) -> bool {
    prefix.is_prefix_of(text) && (text.len() == prefix.len() || text[prefix.len() as int] == '/')
}

impl PatternView {
    /// Whether the pattern matches a `host/owner/name`.
    pub open spec fn accepts(self, spec: Seq<char>) -> bool {
        match self {
            PatternView::HostExact(h) => at_or_below(spec, h),
            PatternView::HostOwner(h) => at_or_below(spec, h),
            PatternView::Regex(p) => regex_accepts(p, spec),
        }
    }
}

/// Whether `spec` is `prefix`, or goes on after it with a `/`.
pub fn prefix_or_exact_match(spec: &str, prefix: &str) -> (r: bool)
    ensures
        r == at_or_below(spec@, prefix@),
{
    let s = chars_of(spec);
    let p = chars_of(prefix);
    if !stands_at(&s, &p, 0) {
        assert(!prefix@.is_prefix_of(spec@)) by {
            if prefix@.is_prefix_of(spec@) {
                assert(s@.subrange(0, p@.len() as int) =~= p@);
            }
        }
        return false;
    }
    assert(prefix@.is_prefix_of(spec@));
    s.len() == p.len() || s[p.len()] == '/'
}

impl PatternKind {
    /// Whether the pattern matches a `host/owner/name`.
    pub fn matches(&self, spec: &str) -> (r: bool)
        ensures
            r == self@.accepts(spec@),
    {
        match self {
            PatternKind::HostExact(h) => prefix_or_exact_match(spec, h.as_str()),
            PatternKind::HostOwner(h) => prefix_or_exact_match(spec, h.as_str()),
            PatternKind::Regex(re) => re.is_match(spec),
        }
    }
}

/// What is wrong with a route's pattern.
#[derive(Debug, Clone, Copy, PartialEq, Eq, Structural)]
pub enum PatternFault {
    /// `host:` without a host.
    EmptyHost,
    /// `host:<host>/<owner>` with an empty segment.
    EmptySegment,
    /// `host:` with more than two segments.
    TooDeep,
    /// `//`, which would match everything.
    EmptyRegex,
    /// The regex does not compile.
    BadRegex,
    /// None of the three forms.
    Unknown,
}

/// The pattern that a text stands for, or what is wrong with it.
pub open spec fn pattern_of(s: Seq<char>) -> Result<PatternView, PatternFault> {
    if "host:"@.is_prefix_of(s) {
        let rest = s.skip(5);
        let slash = first_index(rest, |c: char| c == '/');
        if rest.len() == 0 {
            Err(PatternFault::EmptyHost)
        } else if slash == rest.len() {
            Ok(PatternView::HostExact(rest))
        } else if slash == 0 || slash == rest.len() - 1 {
            Err(PatternFault::EmptySegment)
        } else if rest.skip(slash + 1).contains('/') {
            Err(PatternFault::TooDeep)
        } else {
            Ok(PatternView::HostOwner(rest))
        }
    } else if s.len() >= 2 && s[0] == '/' && s.last() == '/' {
        let body = s.subrange(1, s.len() - 1);
        if body.len() == 0 {
            Err(PatternFault::EmptyRegex)
        } else if regex_fault(body) is Some {
            Err(PatternFault::BadRegex)
        } else {
            Ok(PatternView::Regex(body))
        }
    } else {
        Err(PatternFault::Unknown)
    }
}

/// A pattern that was refused: what is wrong, the pattern, and what the regex
/// compiler says against it.
#[derive(Debug)]
pub struct PatternError {
    pub fault: PatternFault,
    pub pattern: String,
    pub cause: String,
}

impl PatternError {
    /// The error is why the pattern `s` is refused.
    pub open spec fn refuses(self, s: Seq<char>) -> bool {
        &&& pattern_of(s) == Err::<PatternView, PatternFault>(self.fault)
        &&& self.pattern@ == s
        &&& self.fault == PatternFault::BadRegex ==> regex_fault(s.subrange(1, s.len() - 1))
            == Some(self.cause@)
    }

    /// The text of the message.
    pub open spec fn text(self) -> Seq<char> {
        let p = self.pattern@;
        match self.fault {
            PatternFault::EmptyHost => "`host:` pattern requires a host name: `"@ + p + "`"@,
            PatternFault::EmptySegment => "`host:<host>/<owner>` requires both segments: `"@ + p
                + "`"@,
            PatternFault::TooDeep =>
                "`host:` shortcut supports `host:<host>` or `host:<host>/<owner>`; for deeper matches use `/<regex>/`: `"@
                + p + "`"@,
            PatternFault::EmptyRegex =>
                "empty regex pattern `//` would match every repo spec; write `/.*/` if a catch-all is intended, or remove the route"@,
            PatternFault::BadRegex => "compiling regex pattern `"@ + p + "`: "@ + self.cause@,
            PatternFault::Unknown => "unknown route pattern `"@ + p
                + "` — use `host:<host>`, `host:<host>/<owner>`, or `/<regex>/`"@,
        }
    }

    /// The message shown to the user.
    pub fn message(&self) -> (r: String)
        ensures
            r@ == self.text(),
    {
        let p = self.pattern.as_str();
        match self.fault {
            PatternFault::EmptyHost => "`host:` pattern requires a host name: `".to_owned().concat(
                p,
            ).concat("`"),
            PatternFault::EmptySegment => "`host:<host>/<owner>` requires both segments: `".to_owned().concat(
                p,
            ).concat("`"),
            PatternFault::TooDeep => "`host:` shortcut supports `host:<host>` or `host:<host>/<owner>`; for deeper matches use `/<regex>/`: `".to_owned().concat(
                p,
            ).concat("`"),
            PatternFault::EmptyRegex => "empty regex pattern `//` would match every repo spec; write `/.*/` if a catch-all is intended, or remove the route".to_owned(),
            PatternFault::BadRegex => "compiling regex pattern `".to_owned().concat(p).concat(
                "`: ",
            ).concat(self.cause.as_str()),
            PatternFault::Unknown => "unknown route pattern `".to_owned().concat(p).concat(
                "` — use `host:<host>`, `host:<host>/<owner>`, or `/<regex>/`",
            ),
        }
    }
}

/// A refusal without a cause of its own.
fn refused(fault: PatternFault, pattern: &str) -> (r: PatternError)
    ensures
        r.fault == fault,
        r.pattern@ == pattern@,
        r.cause@ == Seq::<char>::empty(),
{
    PatternError { fault, pattern: pattern.to_owned(), cause: String::new() }
}

/// The position of the first `c` at or after `from`, or the length.
fn find_char(v: &[char], c: char, from: usize) -> (r: usize)
    requires
        from <= v@.len(),
    ensures
        from <= r <= v@.len(),
        r < v@.len() ==> v@[r as int] == c,
        forall|j: int| from <= j < r ==> v@[j] != c,
{
    let mut i: usize = from;
    while i < v.len() && v[i] != c
        invariant
            from <= i <= v@.len(),
            forall|j: int| from <= j < i ==> v@[j] != c,
        decreases v@.len() - i,
    {
        i = i + 1;
    }
    i
}

/// Compiles a route's pattern.
pub fn compile_pattern(s: &str) -> (r: Result<PatternKind, PatternError>)
    ensures
        match r {
            Ok(p) => pattern_of(s@) == Ok::<PatternView, PatternFault>(p@),
            Err(e) => e.refuses(s@),
        },
{
    proof {
        reveal_strlit("host:");
    }
    let v = chars_of(s);
    let prefix = chars_of("host:");
    if stands_at(&v, &prefix, 0) {
        assert("host:"@.is_prefix_of(s@));
        let ghost rest = s@.skip(5);
        let n: usize = v.len();
        if n == 5 {
            return Err(refused(PatternFault::EmptyHost, s));
        }
        let slash: usize = find_char(&v, '/', 5);
        proof {
            assert(rest.len() == n - 5);
            assert forall|j: int| 0 <= j < slash - 5 implies !(|c: char| c == '/')(
                #[trigger] rest[j],
            ) by {
                assert(rest[j] == v@[j + 5]);
            }
            if slash < n {
                assert(rest[slash - 5] == v@[slash as int]);
            }
            lemma_is_first_index(rest, |c: char| c == '/', slash - 5);
        }
        if slash == n {
            let host = string_of(&v, 5, n);
            assert(host@ =~= rest);
            return Ok(PatternKind::HostExact(host));
        }
        if slash == 5 || slash == n - 1 {
            return Err(refused(PatternFault::EmptySegment, s));
        }
        let next: usize = find_char(&v, '/', slash + 1);
        let ghost owner = rest.skip(slash - 5 + 1);
        if next < n {
            assert(owner[next - slash - 1] == '/');
            return Err(refused(PatternFault::TooDeep, s));
        }
        assert(!owner.contains('/')) by {
            assert forall|j: int| 0 <= j < owner.len() implies owner[j] != '/' by {
                assert(owner[j] == v@[j + slash + 1]);
            }
        }
        let both = string_of(&v, 5, n);
        assert(both@ =~= rest);
        return Ok(PatternKind::HostOwner(both));
    }
    assert(!"host:"@.is_prefix_of(s@)) by {
        if "host:"@.is_prefix_of(s@) {
            assert(v@.subrange(0, prefix@.len() as int) =~= prefix@);
        }
    }
    let n: usize = v.len();
    if n >= 2 && v[0] == '/' && v[n - 1] == '/' {
        if n == 2 {
            return Err(refused(PatternFault::EmptyRegex, s));
        }
        let body = string_of(&v, 1, n - 1);
        match RouteRegex::compile(body.as_str()) {
            Ok(re) => Ok(PatternKind::Regex(re)),
            Err(cause) => Err(
                PatternError { fault: PatternFault::BadRegex, pattern: s.to_owned(), cause },
            ),
        }
    } else {
        Err(refused(PatternFault::Unknown, s))
    }
}

/// A route ready for matching: its pattern compiled, its root expanded.
#[derive(Debug)]
pub struct CompiledRoute {
    pub raw: Route,
    pub pattern: PatternKind,
    pub resolved_root: Option<String>,
}

/// The configuration with a profile applied.
#[derive(Debug)]
pub struct ResolvedConfig {
    pub root: String,
    pub layout: String,
    pub default_vcs: VcsDefault,
    pub default_protocol: Protocol,
    pub default_host: String,
    /// At least one.
    pub exec_concurrency: usize,
    pub auto_update: AutoUpdateMode,
    pub update_check_interval: Option<String>,
    /// With a page of at least one row.
    pub ui: UiConfig,
    pub shell: ShellConfig,
    /// With at least one repository at once.
    pub cache: CacheConfig,
    pub routes: Vec<CompiledRoute>,
    pub git_config: Vec<(String, String)>,
    pub active_profile: Option<String>,
    /// The profile has a root of its own, which no route overrides.
    pub profile_provided_root: bool,
    pub raw: ShokaConfig,
}

/// Why a configuration cannot be used.
#[derive(Debug)]
pub enum ConfigError {
    /// The profile in force is not defined.
    UnknownProfile(String),
    /// Neither the profile nor `[global]` sets a root.
    NoRoot,
    /// The pattern of the route at this position is refused.
    Route { index: usize, error: PatternError },
    /// The layout does not render for this repository.
    Layout { layout: String, slug: String, cause: String },
    /// There is a configuration file already.
    Exists(String),
}

impl ConfigError {
    /// The text of the message.
    pub open spec fn text(self) -> Seq<char> {
        match self {
            ConfigError::UnknownProfile(name) => "profile `"@ + name@
                + "` is not defined in config"@,
            ConfigError::NoRoot =>
                "`global.root` (or `profiles.<name>.root`) must be set in config"@,
            ConfigError::Route { index, error } => "compiling routes["@ + decimal(index as nat)
                + "] pattern: "@ + error.text(),
            ConfigError::Layout { layout, slug, cause } => "rendering layout `"@ + layout@
                + "` for "@ + slug@ + ": "@ + cause@,
            ConfigError::Exists(path) => "config file already exists at "@ + path@
                + "; not overwriting"@,
        }
    }

    /// The message shown to the user.
    pub fn message(&self) -> (r: String)
        ensures
            r@ == self.text(),
    {
        match self {
            ConfigError::UnknownProfile(name) => "profile `".to_owned().concat(
                name.as_str(),
            ).concat("` is not defined in config"),
            ConfigError::NoRoot => "`global.root` (or `profiles.<name>.root`) must be set in config".to_owned(),
            ConfigError::Route { index, error } => "compiling routes[".to_owned().concat(
                decimal_of(*index as u64).as_str(),
            ).concat("] pattern: ").concat(error.message().as_str()),
            ConfigError::Layout { layout, slug, cause } => "rendering layout `".to_owned().concat(
                layout.as_str(),
            ).concat("` for ").concat(slug.as_str()).concat(": ").concat(cause.as_str()),
            ConfigError::Exists(path) => "config file already exists at ".to_owned().concat(
                path.as_str(),
            ).concat("; not overwriting"),
        }
    }
}

/// `n`, but at least one.
pub open spec fn floored(n: usize) -> usize {
    if n == 0 {
        1
    } else {
        n
    }
}

fn floor_one(n: usize) -> (r: usize)
    ensures
        r == floored(n),
{
    if n == 0 {
        1
    } else {
        n
    }
}

/// The value of `o`, or else `d`.
pub open spec fn opt_or<T>(o: Option<T>, d: T) -> T {
    match o {
        Some(x) => x,
        None => d,
    }
}

/// Whether a profile has this name.
pub open spec fn named(name: Seq<char>) -> spec_fn((String, ProfileConfig)) -> bool {
    |p: (String, ProfileConfig)| p.0@ == name
}

impl ShokaConfig {
    /// Each profile's name occurs once, and so does each key in a profile.
    pub open spec fn wf(self) -> bool {
        &&& each_once(self.profiles@)
        &&& forall|i: int| 0 <= i < self.profiles@.len() ==> (#[trigger] self.profiles@[i]).1.wf()
    }

    /// The name of the profile in force.
    pub open spec fn profile_name(self, cli: Option<Seq<char>>, env: Option<Seq<char>>) -> Option<
        Seq<char>,
    > {
        if cli is Some {
            cli
        } else if env is Some && env->0.len() > 0 {
            env
        } else {
            opt_text(self.global.default_profile)
        }
    }

    /// The position of a profile, or the number of profiles.
    pub open spec fn profile_index(self, name: Seq<char>) -> int {
        first_index(self.profiles@, named(name))
    }

    /// The profile in force, where one is named and defined.
    pub open spec fn profile(self, cli: Option<Seq<char>>, env: Option<Seq<char>>) -> Option<
        ProfileConfig,
    > {
        match self.profile_name(cli, env) {
            Some(name) => {
                let i = self.profile_index(name);
                if i < self.profiles@.len() {
                    Some(self.profiles@[i].1)
                } else {
                    None
                }
            },
            None => None,
        }
    }

    /// The root of a profile, or else the global one, before expansion.
    pub open spec fn root_text(self, prof: Option<ProfileConfig>) -> Option<Seq<char>> {
        if prof is Some && prof->0.root is Some {
            opt_text(prof->0.root)
        } else {
            opt_text(self.global.root)
        }
    }

    /// The position of the first route whose pattern is refused, or the number
    /// of routes.
    pub open spec fn bad_route(self) -> int {
        first_index(self.routes@, |r: Route| pattern_of(r.pattern@) is Err)
    }

    /// Whether the configuration can be resolved.
    pub open spec fn resolves(self, cli: Option<Seq<char>>, env: Option<Seq<char>>) -> bool {
        &&& self.profile_name(cli, env) is Some ==> self.profile(cli, env) is Some
        &&& self.root_text(self.profile(cli, env)) is Some
        &&& self.bad_route() == self.routes@.len()
    }

    /// Whether `e` is why the configuration cannot be resolved.
    pub open spec fn refused_with(
        self,
        cli: Option<Seq<char>>,
        env: Option<Seq<char>>,
        e: ConfigError,
    ) -> bool {
        let name = self.profile_name(cli, env);
        if name is Some && self.profile(cli, env) is None {
            e matches ConfigError::UnknownProfile(n) && n@ == name->0
        } else if self.root_text(self.profile(cli, env)) is None {
            e is NoRoot
        } else {
            let i = self.bad_route();
            &&& i < self.routes@.len()
            &&& e matches ConfigError::Route { index, error } && index == i && error.refuses(
                self.routes@[i].pattern@,
            )
        }
    }

    /// The name of the profile in force: the one given on the command line,
    /// else a non-empty one from the environment, else the default one.
    pub fn resolve_profile_name(&self, cli: Option<&str>, env: Option<&str>) -> (r: Option<String>)
        ensures
            opt_text(r) == self.profile_name(opt_str(cli), opt_str(env)),
    {
        if let Some(n) = cli {
            return Some(n.to_owned());
        }
        match env {
            Some(n) => {
                if !n.is_empty() {
                    return Some(n.to_owned());
                }
            },
            None => {},
        }
        clone_opt(&self.global.default_profile)
    }

    fn position_of_profile(&self, name: &str) -> (r: usize)
        ensures
            r == self.profile_index(name@),
            r <= self.profiles@.len(),
    {
        let ghost p = named(name@);
        let mut i: usize = 0;
        while i < self.profiles.len()
            invariant
                p == named(name@),
                i <= self.profiles@.len(),
                forall|j: int| 0 <= j < i ==> !p(#[trigger] self.profiles@[j]),
            decreases self.profiles@.len() - i,
        {
            if same_text(self.profiles[i].0.as_str(), name) {
                proof {
                    lemma_is_first_index(self.profiles@, p, i as int);
                }
                return i;
            }
            i = i + 1;
        }
        proof {
            lemma_is_first_index(self.profiles@, p, i as int);
        }
        i
    }

    /// The profile in force, or that it is not defined.
    fn chosen_profile(&self, cli: Option<&str>, env: Option<&str>) -> (r: Result<
        Option<&ProfileConfig>,
        ConfigError,
    >)
        ensures
            ({
                let name = self.profile_name(opt_str(cli), opt_str(env));
                let prof = self.profile(opt_str(cli), opt_str(env));
                match r {
                    Ok(Some(p)) => prof == Some(*p),
                    Ok(None) => name is None && prof is None,
                    Err(e) => name is Some && prof is None && (e matches
                        ConfigError::UnknownProfile(n) && n@ == name->0),
                }
            }),
    {
        match self.resolve_profile_name(cli, env) {
            None => Ok(None),
            Some(name) => {
                let i: usize = self.position_of_profile(name.as_str());
                if i < self.profiles.len() {
                    Ok(Some(&self.profiles[i].1))
                } else {
                    Err(ConfigError::UnknownProfile(name))
                }
            },
        }
    }

    /// The text of the root in force, before expansion.
    fn chosen_root<'a>(&'a self, prof: Option<&'a ProfileConfig>) -> (r: Option<&'a str>)
        ensures
            opt_str(r) == self.root_text(
                match prof {
                    Some(p) => Some(*p),
                    None => None,
                },
            ),
    {
        if let Some(p) = prof {
            if let Some(root) = &p.root {
                return Some(root.as_str());
            }
        }
        match &self.global.root {
            Some(root) => Some(root.as_str()),
            None => None,
        }
    }

    /// The routes with their patterns compiled and with these expanded roots;
    /// or the first refusal.
    fn compile_routes(&self, route_roots: Vec<Option<String>>) -> (r: Result<
        Vec<CompiledRoute>,
        ConfigError,
    >)
        requires
            route_roots@.len() == self.routes@.len(),
        ensures
            match r {
                Ok(v) => self.bad_route() == self.routes@.len() && compiled(
                    self.routes@,
                    route_roots@,
                    v@,
                ),
                Err(e) => {
                    let i = self.bad_route();
                    &&& i < self.routes@.len()
                    &&& e matches ConfigError::Route { index, error } && index == i
                        && error.refuses(self.routes@[i].pattern@)
                },
            },
    {
        let ghost bad = |r: Route| pattern_of(r.pattern@) is Err;
        let ghost roots = route_roots@;
        let mut out: Vec<CompiledRoute> = Vec::new();
        let total: usize = self.routes.len();
        let mut i: usize = 0;
        for root in it: route_roots
            invariant
                it.seq() == roots,
                roots.len() == self.routes@.len(),
                bad == (|r: Route| pattern_of(r.pattern@) is Err),
                i == it.index(),
                i <= self.routes@.len() == total,
                out@.len() == i,
                forall|j: int| 0 <= j < i ==> !bad(#[trigger] self.routes@[j]),
                forall|j: int|
                    0 <= j < i ==> compiled_one(self.routes@[j], roots[j], #[trigger] out@[j]),
        {
            let raw = &self.routes[i];
            match compile_pattern(raw.pattern.as_str()) {
                Ok(pattern) => {
                    out.push(CompiledRoute { raw: raw.clone(), pattern, resolved_root: root });
                },
                Err(error) => {
                    proof {
                        lemma_is_first_index(self.routes@, bad, i as int);
                    }
                    return Err(ConfigError::Route { index: i, error });
                },
            }
            i = i + 1;
        }
        proof {
            lemma_is_first_index(self.routes@, bad, i as int);
        }
        Ok(out)
    }

    /// Applies the profile in force, with the root and the routes' roots
    /// already expanded.
    ///
    /// Refused when the profile is not defined, when no root is set, or when a
    /// route's pattern is refused, in this order.
    pub fn resolve_with(
        self,
        cli: Option<&str>,
        env: Option<&str>,
        root: String,
        route_roots: Vec<Option<String>>,
    ) -> (r: Result<ResolvedConfig, ConfigError>)
        requires
            route_roots@.len() == self.routes@.len(),
        ensures
            match r {
                Ok(c) => {
                    &&& self.resolves(opt_str(cli), opt_str(env))
                    &&& c.resolved_from(self, opt_str(cli), opt_str(env))
                    &&& c.root@ == root@
                    &&& compiled(self.routes@, route_roots@, c.routes@)
                },
                Err(e) => !self.resolves(opt_str(cli), opt_str(env)) && self.refused_with(
                    opt_str(cli),
                    opt_str(env),
                    e,
                ),
            },
    {
        let active_profile = self.resolve_profile_name(cli, env);
        let prof = match self.chosen_profile(cli, env) {
            Ok(p) => p,
            Err(e) => {
                return Err(e);
            },
        };
        if self.chosen_root(prof).is_none() {
            return Err(ConfigError::NoRoot);
        }
        let routes = match self.compile_routes(route_roots) {
            Ok(v) => v,
            Err(e) => {
                return Err(e);
            },
        };
        let g = &self.global;
        let ui = UiConfig {
            status_cache_ttl_secs: g.ui.status_cache_ttl_secs,
            tui_refresh_ms: g.ui.tui_refresh_ms,
            own_owners: clone_texts(&g.ui.own_owners),
            cd_page_size: floor_one(g.ui.cd_page_size),
        };
        let shell = ShellConfig { cd_command_name: g.shell.cd_command_name.clone() };
        let cache = CacheConfig {
            background_refresh: g.cache.background_refresh,
            refresh_threshold_secs: g.cache.refresh_threshold_secs,
            parallel_repos: floor_one(g.cache.parallel_repos),
        };
        let mut layout = g.layout.clone();
        let mut default_vcs = g.default_vcs;
        let mut default_protocol = g.default_protocol;
        let mut default_host = g.default_host.clone();
        let mut exec_concurrency: usize = g.exec_concurrency;
        let mut git_config: Vec<(String, String)> = Vec::new();
        let mut profile_provided_root = false;
        assert(pair_texts(git_config@) =~= Seq::<(Seq<char>, Seq<char>)>::empty());
        if let Some(p) = prof {
            if let Some(x) = &p.layout {
                layout = x.clone();
            }
            if let Some(x) = p.default_vcs {
                default_vcs = x;
            }
            if let Some(x) = p.default_protocol {
                default_protocol = x;
            }
            if let Some(x) = &p.default_host {
                default_host = x.clone();
            }
            if let Some(x) = p.exec_concurrency {
                exec_concurrency = x;
            }
            git_config = clone_pairs(&p.git_config);
            profile_provided_root = p.root.is_some();
        }
        let auto_update = g.auto_update;
        let update_check_interval = clone_opt(&g.update_check_interval);
        Ok(
            ResolvedConfig {
                root,
                layout,
                default_vcs,
                default_protocol,
                default_host,
                exec_concurrency: floor_one(exec_concurrency),
                auto_update,
                update_check_interval,
                ui,
                shell,
                cache,
                routes,
                git_config,
                active_profile,
                profile_provided_root,
                raw: self,
            },
        )
    }

    /// Applies the profile in force. The root and the routes' roots are
    /// expanded by [`expand_home`]; for the rest see
    /// [`ShokaConfig::resolve_with`].
    pub fn resolve(self, cli: Option<&str>, env: Option<&str>) -> (r: Result<
        ResolvedConfig,
        ConfigError,
    >)
        ensures
            match r {
                Ok(c) => {
                    &&& self.resolves(opt_str(cli), opt_str(env))
                    &&& c.resolved_from(self, opt_str(cli), opt_str(env))
                    &&& expands(
                        self.root_text(self.profile(opt_str(cli), opt_str(env)))->0,
                        c.root@,
                    )
                    &&& forall|i: int|
                        0 <= i < self.routes@.len() ==> expands_opt(
                            opt_text(self.routes@[i].root),
                            opt_text((#[trigger] c.routes@[i]).resolved_root),
                        )
                },
                Err(e) => !self.resolves(opt_str(cli), opt_str(env)) && self.refused_with(
                    opt_str(cli),
                    opt_str(env),
                    e,
                ),
            },
    {
        let root = match self.chosen_profile(cli, env) {
            Ok(prof) => match self.chosen_root(prof) {
                Some(root) => expand_home(root),
                None => String::new(),
            },
            Err(_) => String::new(),
        };
        let mut route_roots: Vec<Option<String>> = Vec::new();
        let mut i: usize = 0;
        while i < self.routes.len()
            invariant
                i <= self.routes@.len(),
                route_roots@.len() == i,
                forall|j: int|
                    0 <= j < i ==> expands_opt(
                        opt_text(self.routes@[j].root),
                        opt_text(#[trigger] route_roots@[j]),
                    ),
            decreases self.routes@.len() - i,
        {
            let expanded = match &self.routes[i].root {
                Some(root) => Some(expand_home(root.as_str())),
                None => None,
            };
            route_roots.push(expanded);
            i = i + 1;
        }
        self.resolve_with(cli, env, root, route_roots)
    }
}

/// A route's compiled form with this expanded root.
pub open spec fn compiled_one(raw: Route, root: Option<String>, route: CompiledRoute) -> bool {
    &&& route.raw == raw
    &&& pattern_of(raw.pattern@) == Ok::<PatternView, PatternFault>(route.pattern@)
    &&& route.resolved_root == root
}

/// The routes' compiled forms, in order, with these expanded roots.
pub open spec fn compiled(
    raw: Seq<Route>,
    roots: Seq<Option<String>>,
    routes: Seq<CompiledRoute>,
) -> bool {
    &&& routes.len() == raw.len()
    &&& forall|i: int|
        0 <= i < raw.len() ==> compiled_one(raw[i], roots[i], #[trigger] routes[i])
}

impl ResolvedConfig {
    /// The configuration `cfg` with its profile in force applied, whatever the
    /// roots were expanded to.
    pub open spec fn resolved_from(
        self,
        cfg: ShokaConfig,
        cli: Option<Seq<char>>,
        env: Option<Seq<char>>,
    ) -> bool {
        let g = cfg.global;
        let prof = cfg.profile(cli, env);
        &&& self.raw == cfg
        &&& opt_text(self.active_profile) == cfg.profile_name(cli, env)
        &&& self.profile_provided_root == (prof is Some && prof->0.root is Some)
        &&& self.layout@ == (if prof is Some && prof->0.layout is Some {
            prof->0.layout->0@
        } else {
            g.layout@
        })
        &&& self.default_vcs == (if prof is Some {
            opt_or(prof->0.default_vcs, g.default_vcs)
        } else {
            g.default_vcs
        })
        &&& self.default_protocol == (if prof is Some {
            opt_or(prof->0.default_protocol, g.default_protocol)
        } else {
            g.default_protocol
        })
        &&& self.default_host@ == (if prof is Some && prof->0.default_host is Some {
            prof->0.default_host->0@
        } else {
            g.default_host@
        })
        &&& self.exec_concurrency == floored(
            if prof is Some {
                opt_or(prof->0.exec_concurrency, g.exec_concurrency)
            } else {
                g.exec_concurrency
            },
        )
        &&& self.auto_update == g.auto_update
        &&& opt_text(self.update_check_interval) == opt_text(g.update_check_interval)
        &&& self.ui@ == (UiView { cd_page_size: floored(g.ui.cd_page_size), ..g.ui@ })
        &&& self.shell.cd_command_name@ == g.shell.cd_command_name@
        &&& self.cache == (CacheConfig {
            parallel_repos: floored(g.cache.parallel_repos),
            ..g.cache
        })
        &&& pair_texts(self.git_config@) == (if prof is Some {
            pair_texts(prof->0.git_config@)
        } else {
            Seq::empty()
        })
        &&& self.routes@.len() == cfg.routes@.len()
        &&& forall|i: int|
            0 <= i < cfg.routes@.len() ==> compiled_one(
                cfg.routes@[i],
                self.routes@[i].resolved_root,
                #[trigger] self.routes@[i],
            )
    }
}

/// The text with a leading `~` replaced by the home directory: `~` by itself,
/// `~/...` and `~\\...`. Any other `~` stays, and all do without a home.
pub open spec fn tilde_expanded(s: Seq<char>, home: Option<Seq<char>>) -> Seq<char> {
    if home is None {
        s
    } else if s == "~"@ {
        home->0
    } else if s.len() >= 2 && s[0] == '~' && (s[1] == '/' || s[1] == '\\') {
        path_join(home->0, s.skip(2))
    } else {
        s
    }
}

/// The text with a leading `~` replaced by the home directory.
pub fn expand_tilde(s: &str, home: Option<&str>) -> (r: String)
    ensures
        r@ == tilde_expanded(s@, opt_str(home)),
{
    let home = match home {
        Some(h) => h,
        None => {
            return s.to_owned();
        },
    };
    if same_text(s, "~") {
        return home.to_owned();
    }
    let v = chars_of(s);
    if v.len() >= 2 && v[0] == '~' && (v[1] == '/' || v[1] == '\\') {
        let rest = string_of(&v, 2, v.len());
        assert(rest@ =~= s@.skip(2));
        return join(home, rest.as_str());
    }
    s.to_owned()
}

/// `r` is what `s` expands to, for some home directory: the absolute form of
/// the text with its `~` expanded.
pub open spec fn expands(s: Seq<char>, r: Seq<char>) -> bool {
    exists|home: Option<Seq<char>>| made_absolute(#[trigger] tilde_expanded(s, home), r)
}

/// [`expands`], for a root that may be absent.
pub open spec fn expands_opt(s: Option<Seq<char>>, r: Option<Seq<char>>) -> bool {
    match (s, r) {
        (Some(s), Some(r)) => expands(s, r),
        (None, None) => true,
        _ => false,
    }
}

/// `directories::BaseDirs::home_dir`: the home directory that the environment
/// gives, if it gives one. Nothing is claimed of it.
#[verifier::external_body]
pub(crate) fn home_dir() -> (r: Option<String>) {
    directories::BaseDirs::new().map(|b| b.home_dir().to_string_lossy().into_owned())
}

/// The path with a leading `~` expanded, made absolute where that can be done.
pub fn expand_home(s: &str) -> (r: String)
    ensures
        expands(s@, r@),
{
    let home = home_dir();
    let expanded = match &home {
        Some(h) => expand_tilde(s, Some(h.as_str())),
        None => expand_tilde(s, None),
    };
    let r = absolute_path(expanded.as_str());
    assert(made_absolute(tilde_expanded(s@, opt_text(home)), r@));
    r
}

/// Where a repository is cloned to.
#[derive(Debug)]
pub struct CloneTarget {
    pub root: String,
    pub layout: String,
    pub default_vcs: VcsDefault,
    pub default_protocol: Protocol,
    /// The route that decided; absent when the profile or `[global]` did.
    pub matched_route: Option<usize>,
}

/// The contents of a [`CloneTarget`].
#[verifier::ext_equal]
pub struct CloneTargetView {
    pub root: Seq<char>,
    pub layout: Seq<char>,
    pub default_vcs: VcsDefault,
    pub default_protocol: Protocol,
    pub matched_route: Option<usize>,
}

impl View for CloneTarget {
    type V = CloneTargetView;

    open spec fn view(&self) -> CloneTargetView {
        CloneTargetView {
            root: self.root@,
            layout: self.layout@,
            default_vcs: self.default_vcs,
            default_protocol: self.default_protocol,
            matched_route: self.matched_route,
        }
    }
}

/// What a layout template is rendered with.
#[derive(Debug)]
pub struct LayoutFields {
    pub root: String,
    pub host: String,
    pub owner: String,
    pub name: String,
    pub profile: String,
    pub vcs: String,
    pub protocol: String,
}

/// The contents of [`LayoutFields`].
#[verifier::ext_equal]
pub struct LayoutFieldsView {
    pub root: Seq<char>,
    pub host: Seq<char>,
    pub owner: Seq<char>,
    pub name: Seq<char>,
    pub profile: Seq<char>,
    pub vcs: Seq<char>,
    pub protocol: Seq<char>,
}

impl View for LayoutFields {
    type V = LayoutFieldsView;

    open spec fn view(&self) -> LayoutFieldsView {
        LayoutFieldsView {
            root: self.root@,
            host: self.host@,
            owner: self.owner@,
            name: self.name@,
            profile: self.profile@,
            vcs: self.vcs@,
            protocol: self.protocol@,
        }
    }
}

/// The tree `<root>/<host>/<owner>/<name>`.
pub open spec fn flat_path(f: LayoutFieldsView) -> Seq<char> {
    f.root + "/"@ + f.host + "/"@ + f.owner + "/"@ + f.name
}

/// What rendering a layout comes to.
pub enum Filled {
    /// This path.
    Path(Seq<char>),
    /// An error.
    Broken,
    /// Whatever the template computes.
    Open,
}

/// `head` in front of what the rest comes to.
pub open spec fn in_front(head: Seq<char>, rest: Filled) -> Filled {
    match rest {
        Filled::Path(r) => Filled::Path(head + r),
        _ => rest,
    }
}

/// White space inside a hole.
pub open spec fn is_blank(c: char) -> bool {
    c == ' ' || c == '\t' || c == '\n' || c == '\u{c}' || c == '\r'
}

/// What the name in a hole is made of.
pub open spec fn in_word(c: char) -> bool {
    'a' <= c <= 'z' || 'A' <= c <= 'Z' || '0' <= c <= '9' || c == '_'
}

/// `s` without the white space that it starts with.
pub open spec fn skip_blanks(s: Seq<char>) -> Seq<char>
    decreases s.len(),
{
    if s.len() > 0 && is_blank(s[0]) {
        skip_blanks(s.skip(1))
    } else {
        s
    }
}

/// The length of the name that `s` starts with.
pub open spec fn word_len(s: Seq<char>) -> int
    decreases s.len(),
{
    if s.len() > 0 && in_word(s[0]) {
        1 + word_len(s.skip(1))
    } else {
        0
    }
}

/// The name in a hole and the text behind it, for the text that follows the
/// opening braces: a name that does not start with a digit, with or without
/// white space around it, and the closing braces.
pub open spec fn hole_of(s: Seq<char>) -> Option<(Seq<char>, Seq<char>)> {
    let inner = skip_blanks(s);
    let n = word_len(inner);
    let end = skip_blanks(inner.skip(n));
    if n > 0 && !('0' <= inner[0] <= '9') && occurs_at(end, "}}"@, 0) {
        Some((inner.take(n), end.skip(2)))
    } else {
        None
    }
}

/// The field with this name.
pub open spec fn field_of(f: LayoutFieldsView, word: Seq<char>) -> Option<Seq<char>> {
    if word == "root"@ {
        Some(f.root)
    } else if word == "host"@ {
        Some(f.host)
    } else if word == "owner"@ {
        Some(f.owner)
    } else if word == "name"@ {
        Some(f.name)
    } else if word == "profile"@ {
        Some(f.profile)
    } else if word == "vcs"@ {
        Some(f.vcs)
    } else if word == "protocol"@ {
        Some(f.protocol)
    } else {
        None
    }
}

/// The names that stand for something in every template.
pub open spec fn is_builtin(word: Seq<char>) -> bool {
    ||| word == "true"@ || word == "True"@ || word == "false"@ || word == "False"@
    ||| word == "none"@ || word == "None"@ || word == "null"@
    ||| word == "__tera_context"@
}

/// What rendering a layout comes to. Text is kept, and a hole, `{{ name }}`, is
/// filled by the field with its name. A name of no field is an error, and so are
/// braces that are not closed. Any other expression, and what stands behind it,
/// is left open, and so are tags and comments.
pub open spec fn filled(layout: Seq<char>, f: LayoutFieldsView) -> Filled
    decreases layout.len(),
{
    if layout.len() == 0 {
        Filled::Path(layout)
    } else if occurs_at(layout, "{{"@, 0) {
        if has(layout.skip(2), "}}"@) {
            match hole_of(layout.skip(2)) {
                Some((word, rest)) => match field_of(f, word) {
                    Some(value) => {
                        proof {
                            reveal_strlit("{{");
                            lemma_hole_is_shorter(layout.skip(2));
                        }
                        in_front(value, filled(rest, f))
                    },
                    None => if is_builtin(word) {
                        Filled::Open
                    } else {
                        Filled::Broken
                    },
                },
                None => Filled::Open,
            }
        } else {
            Filled::Broken
        }
    } else if occurs_at(layout, "{%"@, 0) || occurs_at(layout, "{#"@, 0) {
        Filled::Open
    } else {
        in_front(layout.take(1), filled(layout.skip(1), f))
    }
}

proof fn lemma_skip_blanks(s: Seq<char>)
    ensures
        skip_blanks(s).len() <= s.len(),
    decreases s.len(),
{
    if s.len() > 0 && is_blank(s[0]) {
        lemma_skip_blanks(s.skip(1));
    }
}

proof fn lemma_word_len(s: Seq<char>)
    ensures
        0 <= word_len(s) <= s.len(),
    decreases s.len(),
{
    if s.len() > 0 && in_word(s[0]) {
        lemma_word_len(s.skip(1));
    }
}

/// What stands behind a hole is shorter than the text.
pub proof fn lemma_hole_is_shorter(s: Seq<char>)
    ensures
        hole_of(s) matches Some((_, rest)) ==> rest.len() < s.len(),
{
    reveal_strlit("}}");
    let inner = skip_blanks(s);
    lemma_skip_blanks(s);
    lemma_word_len(inner);
    lemma_skip_blanks(inner.skip(word_len(inner)));
}

/// Text of white space alone.
pub open spec fn all_blank(s: Seq<char>) -> bool {
    forall|i: int| 0 <= i < s.len() ==> is_blank(#[trigger] s[i])
}

/// A name as it stands in a hole.
pub open spec fn is_word(s: Seq<char>) -> bool {
    s.len() > 0 && !('0' <= s[0] <= '9') && forall|i: int|
        0 <= i < s.len() ==> in_word(#[trigger] s[i])
}

proof fn lemma_blanks_skipped(blanks: Seq<char>, s: Seq<char>)
    requires
        all_blank(blanks),
        s.len() > 0,
        !is_blank(s[0]),
    ensures
        skip_blanks(blanks + s) == s,
    decreases blanks.len(),
{
    if blanks.len() == 0 {
        assert(blanks + s =~= s);
    } else {
        assert((blanks + s).skip(1) =~= blanks.skip(1) + s);
        assert((blanks + s)[0] == blanks[0]);
        lemma_blanks_skipped(blanks.skip(1), s);
    }
}

proof fn lemma_word_ends(word: Seq<char>, s: Seq<char>)
    requires
        forall|i: int| 0 <= i < word.len() ==> in_word(#[trigger] word[i]),
        s.len() > 0,
        !in_word(s[0]),
    ensures
        word_len(word + s) == word.len(),
    decreases word.len(),
{
    if word.len() == 0 {
        assert(word + s =~= s);
    } else {
        assert((word + s).skip(1) =~= word.skip(1) + s);
        assert((word + s)[0] == word[0]);
        lemma_word_ends(word.skip(1), s);
    }
}

/// White space around the name in a hole makes no difference: the hole is filled
/// by the field with that name, and a name of no field is an error.
pub proof fn law_spacing_in_a_hole(
    before: Seq<char>,
    word: Seq<char>,
    after: Seq<char>,
    rest: Seq<char>,
    f: LayoutFieldsView,
)
    requires
        all_blank(before),
        is_word(word),
        all_blank(after),
    ensures
        filled("{{"@ + before + word + after + "}}"@ + rest, f) == (match field_of(f, word) {
            Some(value) => in_front(value, filled(rest, f)),
            None => if is_builtin(word) {
                Filled::Open
            } else {
                Filled::Broken
            },
        }),
{
    reveal_strlit("{{");
    reveal_strlit("}}");
    let layout = "{{"@ + before + word + after + "}}"@ + rest;
    let end = "}}"@ + rest;
    let tail = after + end;
    let inner = word + tail;
    assert(layout.subrange(0, 2) =~= "{{"@);
    assert(layout.skip(2) =~= before + inner);
    assert(inner[0] == word[0]);
    lemma_blanks_skipped(before, inner);
    assert(tail[0] == (if after.len() > 0 {
        after[0]
    } else {
        '}'
    }));
    lemma_word_ends(word, tail);
    assert(inner.skip(word.len() as int) =~= tail);
    assert(inner.take(word.len() as int) =~= word);
    lemma_blanks_skipped(after, end);
    assert(end.subrange(0, 2) =~= "}}"@);
    assert(end.skip(2) =~= rest);
    assert(has(layout.skip(2), "}}"@)) by {
        let at: int = (before.len() + word.len() + after.len()) as int;
        assert(layout.skip(2).subrange(at, at + 2) =~= "}}"@);
        assert(occurs_at(layout.skip(2), "}}"@, at));
    }
}

/// The default layout, filled, is the flat tree.
proof fn lemma_default_layout(f: LayoutFieldsView)
    ensures
        filled(DEFAULT_LAYOUT@, f) == Filled::Path(flat_path(f)),
{
    reveal_strlit("{{ root }}/{{ host }}/{{ owner }}/{{ name }}");
    reveal_strlit("{{");
    reveal_strlit("}}");
    reveal_strlit("{%");
    reveal_strlit("{#");
    reveal_strlit("/");
    reveal_strlit(" ");
    reveal_strlit("root");
    reveal_strlit("host");
    reveal_strlit("owner");
    reveal_strlit("name");
    let s0 = DEFAULT_LAYOUT@;
    let s1 = s0.skip(10);
    let s2 = s1.skip(1);
    let s3 = s2.skip(10);
    let s4 = s3.skip(1);
    let s5 = s4.skip(11);
    let s6 = s5.skip(1);
    let s7 = s6.skip(10);
    let b = " "@;
    assert(s0 =~= "{{"@ + b + "root"@ + b + "}}"@ + s1);
    assert(s1.take(1) =~= "/"@);
    assert(s2 =~= "{{"@ + b + "host"@ + b + "}}"@ + s3);
    assert(s3.take(1) =~= "/"@);
    assert(s4 =~= "{{"@ + b + "owner"@ + b + "}}"@ + s5);
    assert(s5.take(1) =~= "/"@);
    assert(s6 =~= "{{"@ + b + "name"@ + b + "}}"@ + s7);
    law_spacing_in_a_hole(b, "root"@, b, s1, f);
    law_spacing_in_a_hole(b, "host"@, b, s3, f);
    law_spacing_in_a_hole(b, "owner"@, b, s5, f);
    law_spacing_in_a_hole(b, "name"@, b, s7, f);
    lemma_text_is_kept(s1, f);
    lemma_text_is_kept(s3, f);
    lemma_text_is_kept(s5, f);
    assert("host"@[0] != "root"@[0]);
    assert("owner"@.len() == 5);
    assert("name"@[0] == 'n');
    assert(filled(s7, f) == Filled::Path(s7));
    assert(filled(s6, f) == in_front(f.name, filled(s7, f)));
    assert(filled(s5, f) == in_front("/"@, filled(s6, f)));
    assert(filled(s4, f) == in_front(f.owner, filled(s5, f)));
    assert(filled(s3, f) == in_front("/"@, filled(s4, f)));
    assert(filled(s2, f) == in_front(f.host, filled(s3, f)));
    assert(filled(s1, f) == in_front("/"@, filled(s2, f)));
    assert(filled(s0, f) == in_front(f.root, filled(s1, f)));
    assert(filled(s0, f)->Path_0 =~= flat_path(f));
}

proof fn lemma_text_is_kept(s: Seq<char>, f: LayoutFieldsView)
    requires
        s.len() > 0,
        s[0] != '{',
    ensures
        filled(s, f) == in_front(s.take(1), filled(s.skip(1), f)),
{
    reveal_strlit("{{");
    reveal_strlit("{%");
    reveal_strlit("{#");
    if s.len() >= 2 {
        assert(s.subrange(0, 2)[0] == s[0]);
    }
}

/// Whether `r` is what rendering a layout comes to.
pub open spec fn renders(layout: Seq<char>, f: LayoutFieldsView, r: Result<String, String>) -> bool {
    match filled(layout, f) {
        Filled::Path(p) => r matches Ok(t) && t@ == p,
        Filled::Broken => r is Err,
        Filled::Open => true,
    }
}

/// `teravars::Engine::render` on an engine of its own, with the fields under
/// their names: the rendered template, or the text of the error. Claimed is
/// that a layout of text and holes renders to itself with the holes filled, and
/// that a hole with a name of no field, or braces that are not closed, are an
/// error where nothing but text and filled holes stands in front of them. Any
/// other template may compute, and may read the environment; nothing is claimed
/// of what it renders to.
#[verifier::external_body]
fn render_layout(layout: &str, fields: &LayoutFields) -> (r: Result<String, String>)
    ensures
        renders(layout@, fields@, r),
{
    let mut ctx = teravars::Context::new();
    ctx.insert("root", &fields.root);
    ctx.insert("host", &fields.host);
    ctx.insert("owner", &fields.owner);
    ctx.insert("name", &fields.name);
    ctx.insert("profile", &fields.profile);
    ctx.insert("vcs", &fields.vcs);
    ctx.insert("protocol", &fields.protocol);
    teravars::Engine::new().render(layout, &ctx).map_err(|e| e.to_string())
}

impl ResolvedConfig {
    /// The position of the first route that matches, or the number of routes.
    pub open spec fn route_index(self, spec: Seq<char>) -> int {
        first_index(self.routes@, |r: CompiledRoute| r.pattern@.accepts(spec))
    }

    /// Where a `host/owner/name` is cloned to.
    pub open spec fn target_of(self, spec: Seq<char>) -> CloneTargetView {
        let g = self.raw.global;
        let i = self.route_index(spec);
        if self.profile_provided_root {
            CloneTargetView {
                root: self.root@,
                layout: self.layout@,
                default_vcs: self.default_vcs,
                default_protocol: self.default_protocol,
                matched_route: None,
            }
        } else if i < self.routes@.len() {
            let route = self.routes@[i];
            CloneTargetView {
                root: if route.resolved_root is Some {
                    route.resolved_root->0@
                } else {
                    self.root@
                },
                layout: if route.raw.layout is Some {
                    route.raw.layout->0@
                } else {
                    g.layout@
                },
                default_vcs: opt_or(route.raw.default_vcs, g.default_vcs),
                default_protocol: opt_or(route.raw.default_protocol, g.default_protocol),
                matched_route: Some(i as usize),
            }
        } else {
            CloneTargetView {
                root: self.root@,
                layout: g.layout@,
                default_vcs: g.default_vcs,
                default_protocol: g.default_protocol,
                matched_route: None,
            }
        }
    }

    /// What a repository's path is rendered with.
    pub open spec fn fields_of(self, repo: RepoView) -> LayoutFieldsView {
        let target = self.target_of(repo.slug());
        LayoutFieldsView {
            root: target.root,
            host: repo.host,
            owner: repo.owner,
            name: repo.name,
            profile: opt_or(opt_text(self.active_profile), "default"@),
            vcs: vcs_text(opt_or(repo.vcs, target.default_vcs)),
            protocol: protocol_text(target.default_protocol),
        }
    }

    /// Where a `host/owner/name` is cloned to: the profile decides when it has
    /// a root; else the first matching route, on top of `[global]`; else
    /// `[global]`.
    pub fn resolve_target(&self, spec: &str) -> (r: CloneTarget)
        ensures
            r@ == self.target_of(spec@),
    {
        if self.profile_provided_root {
            return CloneTarget {
                root: self.root.clone(),
                layout: self.layout.clone(),
                default_vcs: self.default_vcs,
                default_protocol: self.default_protocol,
                matched_route: None,
            };
        }
        let g = &self.raw.global;
        let ghost p = |r: CompiledRoute| r.pattern@.accepts(spec@);
        let mut i: usize = 0;
        while i < self.routes.len()
            invariant
                !self.profile_provided_root,
                *g == self.raw.global,
                p == (|r: CompiledRoute| r.pattern@.accepts(spec@)),
                i <= self.routes@.len(),
                forall|j: int| 0 <= j < i ==> !p(#[trigger] self.routes@[j]),
            decreases self.routes@.len() - i,
        {
            let route = &self.routes[i];
            if route.pattern.matches(spec) {
                proof {
                    lemma_is_first_index(self.routes@, p, i as int);
                }
                return CloneTarget {
                    root: match &route.resolved_root {
                        Some(root) => root.clone(),
                        None => self.root.clone(),
                    },
                    layout: match &route.raw.layout {
                        Some(layout) => layout.clone(),
                        None => g.layout.clone(),
                    },
                    default_vcs: match route.raw.default_vcs {
                        Some(v) => v,
                        None => g.default_vcs,
                    },
                    default_protocol: match route.raw.default_protocol {
                        Some(x) => x,
                        None => g.default_protocol,
                    },
                    matched_route: Some(i),
                };
            }
            i = i + 1;
        }
        proof {
            lemma_is_first_index(self.routes@, p, i as int);
        }
        CloneTarget {
            root: self.root.clone(),
            layout: g.layout.clone(),
            default_vcs: g.default_vcs,
            default_protocol: g.default_protocol,
            matched_route: None,
        }
    }

    /// The layout and the fields that a repository's path is rendered from.
    pub fn layout_for(&self, repo: &Repo) -> (r: (String, LayoutFields))
        ensures
            r.0@ == self.target_of(repo@.slug()).layout,
            r.1@ == self.fields_of(repo@),
    {
        let target = self.resolve_target(repo.slug().as_str());
        let vcs = match repo.vcs {
            Some(v) => v,
            None => target.default_vcs,
        };
        let profile = match &self.active_profile {
            Some(p) => p.clone(),
            None => "default".to_owned(),
        };
        let fields = LayoutFields {
            root: target.root,
            host: repo.host.clone(),
            owner: repo.owner.clone(),
            name: repo.name.clone(),
            profile,
            vcs: vcs_str(vcs).to_owned(),
            protocol: protocol_str(target.default_protocol).to_owned(),
        };
        (target.layout, fields)
    }

    /// A repository's path, given what rendering its layout gave: the path it
    /// is pinned to, where it is; else what was rendered.
    pub fn clone_path_from(&self, repo: &Repo, rendered: Result<String, String>) -> (r: Result<
        String,
        ConfigError,
    >)
        ensures
            match (repo@.path, rendered) {
                (Some(p), _) => r matches Ok(q) && q@ == p,
                (None, Ok(p)) => r matches Ok(q) && q@ == p@,
                (None, Err(e)) => r matches Err(ConfigError::Layout { layout, slug, cause })
                    && layout@ == self.target_of(repo@.slug()).layout && slug@ == repo@.slug()
                    && cause@ == e@,
            },
    {
        if let Some(p) = &repo.path {
            return Ok(p.clone());
        }
        match rendered {
            Ok(p) => Ok(p),
            Err(cause) => {
                let slug = repo.slug();
                let target = self.resolve_target(slug.as_str());
                Err(ConfigError::Layout { layout: target.layout, slug, cause })
            },
        }
    }

    /// What rendering a repository's layout comes to.
    pub open spec fn layout_path(self, repo: RepoView) -> Filled {
        filled(self.target_of(repo.slug()).layout, self.fields_of(repo))
    }

    /// The repository's path may turn out to be `path`: the one it is pinned
    /// to, where it is; else its layout with the holes filled; else, where the
    /// layout is more than text and holes, whatever it renders to.
    pub open spec fn may_live_at(self, repo: RepoView, path: Seq<char>) -> bool {
        match repo.path {
            Some(p) => path == p,
            None => match self.layout_path(repo) {
                Filled::Path(p) => path == p,
                Filled::Broken => false,
                Filled::Open => true,
            },
        }
    }

    /// The repository's path may turn out to render.
    pub open spec fn may_render(self, repo: RepoView) -> bool {
        exists|path: Seq<char>| #[trigger] self.may_live_at(repo, path)
    }

    /// The repository's path may turn out not to render, with `e`: only where
    /// it is not pinned and its layout is not made of text and filled holes.
    pub open spec fn may_fail_with(self, repo: RepoView, e: ConfigError) -> bool {
        let layout = self.target_of(repo.slug()).layout;
        &&& repo.path is None
        &&& !(self.layout_path(repo) is Path)
        &&& e matches ConfigError::Layout { layout: l, slug, .. } && l@ == layout && slug@
            == repo.slug()
    }

    /// A repository's path on disk: the path it is pinned to, where it is;
    /// else its layout rendered with its fields.
    pub fn clone_path_for(&self, repo: &Repo) -> (r: Result<String, ConfigError>)
        ensures
            match r {
                Ok(path) => self.may_live_at(repo@, path@),
                Err(e) => self.may_fail_with(repo@, e),
            },
    {
        if let Some(p) = &repo.path {
            return Ok(p.clone());
        }
        let (layout, fields) = self.layout_for(repo);
        let rendered = render_layout(layout.as_str(), &fields);
        self.clone_path_from(repo, rendered)
    }

    /// [`ResolvedConfig::clone_path_for`], for a caller with one repository.
    pub fn clone_path_for_one(&self, repo: &Repo) -> (r: Result<String, ConfigError>)
        ensures
            match r {
                Ok(path) => self.may_live_at(repo@, path@),
                Err(e) => self.may_fail_with(repo@, e),
            },
    {
        self.clone_path_for(repo)
    }
}

/// A configuration file that was found, and its canonical path where that
/// could be told.
#[derive(Debug)]
pub struct FoundFile {
    pub path: String,
    pub canonical: Option<String>,
}

/// Whether a path's file name is `config.toml`.
pub open spec fn is_default_name(path: Seq<char>) -> bool {
    file_name_of(path) == Some("config.toml"@)
}

/// Whether a path's file name is `config.toml`.
fn has_default_name(path: &str) -> (r: bool)
    ensures
        r == is_default_name(path@),
{
    match file_name(path) {
        Some(name) => same_text(name.as_str(), "config.toml"),
        None => false,
    }
}

/// The files found, without a `config.toml` when another file was asked for.
pub open spec fn retained(found: Seq<FoundFile>, explicit: Seq<char>) -> Seq<Seq<char>>
    decreases found.len(),
{
    if found.len() == 0 {
        Seq::empty()
    } else {
        let front = retained(found.drop_last(), explicit);
        let path = found.last().path@;
        if !is_default_name(explicit) && is_default_name(path) {
            front
        } else {
            front.push(path)
        }
    }
}

/// Whether a retained file is known to be the file at `canonical`.
pub open spec fn listed(
    found: Seq<FoundFile>,
    explicit: Seq<char>,
    canonical: Option<Seq<char>>,
) -> bool {
    canonical is Some && exists|i: int|
        #![trigger found[i]]
        0 <= i < found.len() && found[i].canonical is Some && path_key(found[i].canonical->0@)
            == path_key(canonical->0) && (is_default_name(explicit) || !is_default_name(
            found[i].path@,
        ))
}

/// The files to load, in order: those found, without a sibling `config.toml`
/// when another file was asked for, and the file asked for in front of them
/// when it exists and is not known to be among them.
pub fn files_to_load(
    found: &Vec<FoundFile>,
    explicit: &str,
    explicit_exists: bool,
    explicit_canonical: Option<&str>,
) -> (r: Vec<String>)
    ensures
        texts(r@) == (if explicit_exists && !listed(found@, explicit@, opt_str(explicit_canonical)) {
            seq![explicit@] + retained(found@, explicit@)
        } else {
            retained(found@, explicit@)
        }),
{
    let by_default = has_default_name(explicit);
    let mut kept: Vec<String> = Vec::new();
    let mut already = false;
    let mut i: usize = 0;
    assert(texts(kept@) =~= retained(found@.take(0), explicit@));
    while i < found.len()
        invariant
            by_default == is_default_name(explicit@),
            i <= found@.len(),
            texts(kept@) == retained(found@.take(i as int), explicit@),
            already == listed(found@.take(i as int), explicit@, opt_str(explicit_canonical)),
        decreases found@.len() - i,
    {
        let file = &found[i];
        let ghost here = found@.take(i as int);
        let ghost next = found@.take(i + 1);
        assert(next.drop_last() =~= here);
        assert(next.last() == *file);
        let skip = !by_default && has_default_name(file.path.as_str());
        if !skip {
            let ghost was = texts(kept@);
            kept.push(file.path.clone());
            assert(texts(kept@) =~= was.push(file.path@));
        }
        let hit = match (explicit_canonical, &file.canonical) {
            (Some(c), Some(p)) => !skip && same_path(p.as_str(), c),
            _ => false,
        };
        proof {
            let c = opt_str(explicit_canonical);
            if listed(here, explicit@, c) {
                let k = choose|k: int|
                    #![trigger here[k]]
                    0 <= k < here.len() && here[k].canonical is Some && path_key(
                        here[k].canonical->0@,
                    ) == path_key(c->0) && (is_default_name(explicit@) || !is_default_name(
                        here[k].path@,
                    ));
                assert(next[k] == here[k]);
            }
            if hit {
                assert(next[i as int] == *file);
            }
            if listed(next, explicit@, c) && !hit {
                let k = choose|k: int|
                    #![trigger next[k]]
                    0 <= k < next.len() && next[k].canonical is Some && path_key(
                        next[k].canonical->0@,
                    ) == path_key(c->0) && (is_default_name(explicit@) || !is_default_name(
                        next[k].path@,
                    ));
                assert(k < i);
                assert(here[k] == next[k]);
            }
        }
        if hit {
            already = true;
        }
        i = i + 1;
    }
    assert(found@.take(i as int) =~= found@);
    if explicit_exists && !already {
        let mut out: Vec<String> = Vec::new();
        out.push(explicit.to_owned());
        let ghost head = texts(out@);
        let ghost tail = texts(kept@);
        out.append(&mut kept);
        assert(texts(out@) =~= head + tail);
        assert(head =~= seq![explicit@]);
        out
    } else {
        kept
    }
}

/// The configuration that is written where there is none.
pub const STARTER_CONFIG: &'static str = r#"# shoka config — see https://github.com/yukimemi/shoka for the full schema.
#
# Files are layered: this `config.toml` is the base, `config.*.toml`
# siblings merge on top in alphabetical order, and `config.local.toml`
# always wins. Use `--config PATH` or $SHOKA_CONFIG to point at a
# specific file.

# [vars]
# # User-defined variables. Standard helpers home() / env(name=...) /
# # is_windows() etc. are pre-registered. Reference vars in later TOML
# # values via Tera (see docs above for syntax); the example below
# # uses home().
# work_root = "{{ home() }}/work"

[global]
# Filesystem root under which repositories are cloned. Required.
root = "~/src"

# Path layout template. Variables injected at clone time:
# root, host, owner, name, profile, vcs, protocol. Default produces
# a flat <root>/<host>/<owner>/<name> tree.
# (To set, write a Tera template string here — see the project docs.)

# default_vcs = "auto"          # "auto" | "git" | "jj"
# default_protocol = "https"    # "https" | "ssh"
# default_host = "github.com"
# default_profile = "personal"
# exec_concurrency = 8

# [global.ui]
# status_cache_ttl_secs = 60
# tui_refresh_ms = 250
# # Owners treated as "yours" in the TUI. When non-empty the dashboard
# # launches in mine-only mode and `m` toggles between mine and all.
# own_owners = ["yukimemi"]
# # Rows the `shoka cd` fuzzy picker shows at once (default 15).
# cd_page_size = 15

# [global.shell]
# cd_command_name = "s"

# [global.new]
# # kata preset spec `shoka new` applies after creating + cloning a
# # repo. Overridable per-run with `--preset`; omit (and pass no
# # --preset) to skip the kata step entirely.
# preset = "github.com/yukimemi/pj-presets:rust-cli"

# Routes — evaluated top-to-bottom at clone time; first hit wins.
# Pattern syntax:
#   host:<host>             - host exact (or `<host>/...` prefix)
#   host:<host>/<owner>     - host + owner prefix
#   /<regex>/               - full regex (Rust regex crate)
# A matching route's `root` / `layout` / `default_vcs` / `default_protocol`
# override the corresponding [global] fields. Absent fields fall through.
# Precedence: profile.root (when set) > routes > [global].root.
#
# [[routes]]
# pattern = "host:github.com/mycompany"
# root    = "~/src/work"
#
# [[routes]]
# pattern = "host:gitlab.com"
# root    = "~/src/gitlab"
# default_protocol = "ssh"

# Profiles — `--profile NAME` / $SHOKA_PROFILE / global.default_profile
# selects one. Profile fields override [global] when set; absent fields
# fall through to the global value.
# [profiles.personal]
# root = "~/src"
#
# [profiles.work]
# root = "~/work"
# default_host = "github.com"
#
# [profiles.work.git_config]
# "user.email" = "work@example.com"
"#;

/// The file that starts a configuration.
#[derive(Debug)]
pub struct StarterPlan {
    pub dir: Option<String>,
    pub target: String,
    pub body: &'static str,
}

/// How the starter configuration is written to `paths.config_file()`; refused
/// when there is a file already.
pub fn write_starter(paths: &ShokaPaths, exists: bool) -> (r: Result<StarterPlan, ConfigError>)
    ensures
        match r {
            Ok(plan) => !exists && plan.target@ == paths.config_file_text() && opt_text(plan.dir)
                == parent_of(paths.config_file_text()) && plan.body@ == STARTER_CONFIG@,
            Err(e) => exists && (e matches ConfigError::Exists(p) && p@
                == paths.config_file_text()),
        },
{
    let target = paths.config_file();
    if exists {
        return Err(ConfigError::Exists(target.to_owned()));
    }
    Ok(StarterPlan { dir: parent(target), target: target.to_owned(), body: STARTER_CONFIG })
}

/// A profile with a root of its own decides where a clone goes, whatever the
/// routes say.
pub proof fn law_profile_root_beats_routes(c: ResolvedConfig, spec: Seq<char>)
    requires
        c.profile_provided_root,
    ensures
        c.target_of(spec).matched_route is None,
        c.target_of(spec).root == c.root@,
        c.target_of(spec).layout == c.layout@,
        c.target_of(spec).default_vcs == c.default_vcs,
        c.target_of(spec).default_protocol == c.default_protocol,
{
}

/// Without a profile's root the first matching route decides: no route before
/// it matches, and one decides whenever one matches.
pub proof fn law_first_route_wins(c: ResolvedConfig, spec: Seq<char>)
    requires
        !c.profile_provided_root,
        c.routes@.len() <= usize::MAX,
    ensures
        match c.target_of(spec).matched_route {
            Some(i) => {
                &&& i < c.routes@.len()
                &&& c.routes@[i as int].pattern@.accepts(spec)
                &&& forall|j: int|
                    0 <= j < i ==> !(#[trigger] c.routes@[j]).pattern@.accepts(spec)
            },
            None => forall|j: int|
                0 <= j < c.routes@.len() ==> !(#[trigger] c.routes@[j]).pattern@.accepts(spec),
        },
{
    let p = |r: CompiledRoute| r.pattern@.accepts(spec);
    lemma_first_index(c.routes@, p);
    assert forall|j: int| 0 <= j < c.route_index(spec) implies !(
    #[trigger] c.routes@[j]).pattern@.accepts(spec) by {
        assert(!p(c.routes@[j]));
    }
}

/// A profile without a root leaves clone routing alone: whatever else two such
/// profiles set, clones go to the same place, once the roots have been
/// expanded alike.
pub proof fn law_profile_without_root_stays_out(
    cfg: ShokaConfig,
    a: ResolvedConfig,
    b: ResolvedConfig,
    cli_a: Option<Seq<char>>,
    env_a: Option<Seq<char>>,
    cli_b: Option<Seq<char>>,
    env_b: Option<Seq<char>>,
    spec: Seq<char>,
)
    requires
        a.resolved_from(cfg, cli_a, env_a),
        b.resolved_from(cfg, cli_b, env_b),
        !a.profile_provided_root,
        !b.profile_provided_root,
        a.root@ == b.root@,
        forall|i: int|
            0 <= i < cfg.routes@.len() ==> (#[trigger] a.routes@[i]).resolved_root
                == b.routes@[i].resolved_root,
    ensures
        a.target_of(spec) == b.target_of(spec),
{
    let p = |r: CompiledRoute| r.pattern@.accepts(spec);
    lemma_first_index(a.routes@, p);
    assert forall|i: int| 0 <= i < cfg.routes@.len() implies p(#[trigger] a.routes@[i]) == p(
        b.routes@[i],
    ) && a.routes@[i].raw == b.routes@[i].raw by {
        assert(compiled_one(cfg.routes@[i], a.routes@[i].resolved_root, a.routes@[i]));
        assert(compiled_one(cfg.routes@[i], b.routes@[i].resolved_root, b.routes@[i]));
    }
    let k = a.route_index(spec);
    assert forall|j: int| 0 <= j < k implies !p(#[trigger] b.routes@[j]) by {
        assert(!p(a.routes@[j]));
    }
    if k < a.routes@.len() {
        assert(p(a.routes@[k]));
    }
    lemma_is_first_index(b.routes@, p, k);
}

/// A resolved configuration never asks for zero of what must be at least one.
pub proof fn law_resolved_sizes_are_positive(
    cfg: ShokaConfig,
    c: ResolvedConfig,
    cli: Option<Seq<char>>,
    env: Option<Seq<char>>,
)
    requires
        c.resolved_from(cfg, cli, env),
    ensures
        c.exec_concurrency >= 1,
        c.ui.cd_page_size >= 1,
        c.cache.parallel_repos >= 1,
{
    assert(c.ui@.cd_page_size == c.ui.cd_page_size);
}

/// A `host:` pattern matches at segment boundaries only: the host itself and
/// what lies below it, and no longer name that merely starts with it.
pub proof fn law_host_pattern_stops_at_boundaries(h: Seq<char>, rest: Seq<char>, c: char)
    ensures
        PatternView::HostExact(h).accepts(h),
        PatternView::HostExact(h).accepts(h + "/"@ + rest),
        c != '/' ==> !PatternView::HostExact(h).accepts(h.push(c) + rest),
        PatternView::HostOwner(h).accepts(h),
        PatternView::HostOwner(h).accepts(h + "/"@ + rest),
        c != '/' ==> !PatternView::HostOwner(h).accepts(h.push(c) + rest),
{
    reveal_strlit("/");
    let below = h + "/"@ + rest;
    assert(below.take(h.len() as int) =~= h);
    assert(below[h.len() as int] == '/');
    let longer = h.push(c) + rest;
    assert(longer[h.len() as int] == c);
}

/// Every host name without a `/` has a pattern, and so has every host with an
/// owner.
pub proof fn law_host_patterns_compile(h: Seq<char>, o: Seq<char>)
    requires
        h.len() > 0,
        o.len() > 0,
        !h.contains('/'),
        !o.contains('/'),
    ensures
        pattern_of("host:"@ + h) == Ok::<PatternView, PatternFault>(PatternView::HostExact(h)),
        pattern_of("host:"@ + h + "/"@ + o) == Ok::<PatternView, PatternFault>(
            PatternView::HostOwner(h + "/"@ + o),
        ),
{
    reveal_strlit("host:");
    reveal_strlit("/");
    let slash = |c: char| c == '/';
    let one = "host:"@ + h;
    assert("host:"@.is_prefix_of(one)) by {
        assert(one.take(5) =~= "host:"@);
    }
    assert(one.skip(5) =~= h);
    assert forall|j: int| 0 <= j < h.len() implies !slash(#[trigger] h[j]) by {
        assert(h.contains(h[j]));
    }
    lemma_is_first_index(h, slash, h.len() as int);
    let two = "host:"@ + h + "/"@ + o;
    let rest = h + "/"@ + o;
    assert("host:"@.is_prefix_of(two)) by {
        assert(two.take(5) =~= "host:"@);
    }
    assert(two.skip(5) =~= rest);
    assert forall|j: int| 0 <= j < h.len() implies !slash(#[trigger] rest[j]) by {
        assert(rest[j] == h[j]);
        assert(h.contains(h[j]));
    }
    assert(rest[h.len() as int] == '/');
    lemma_is_first_index(rest, slash, h.len() as int);
    assert(rest.skip(h.len() as int + 1) =~= o);
}

/// A repository that is not pinned lives in the flat tree
/// `<root>/<host>/<owner>/<name>` under the default layout, and a pinned one
/// where it is pinned, whatever the layout; neither path fails to render.
pub proof fn law_where_a_repository_lives(
    c: ResolvedConfig,
    repo: RepoView,
    path: Seq<char>,
    e: ConfigError,
)
    ensures
        repo.path is Some && c.may_live_at(repo, path) ==> path == repo.path->0,
        repo.path is None && c.target_of(repo.slug()).layout == DEFAULT_LAYOUT@ && c.may_live_at(
            repo,
            path,
        ) ==> path == c.target_of(repo.slug()).root + "/"@ + repo.host + "/"@ + repo.owner + "/"@
            + repo.name,
        repo.path is Some || c.target_of(repo.slug()).layout == DEFAULT_LAYOUT@
            ==> !c.may_fail_with(repo, e),
{
    lemma_default_layout(c.fields_of(repo));
    assert(flat_path(c.fields_of(repo)) == c.target_of(repo.slug()).root + "/"@ + repo.host + "/"@
        + repo.owner + "/"@ + repo.name);
}

/// The profile in force is the one with the name in force, wherever it stands
/// among the profiles.
pub proof fn law_profile_goes_by_its_name(
    c: ShokaConfig,
    cli: Option<Seq<char>>,
    env: Option<Seq<char>>,
    i: int,
)
    requires
        c.wf(),
        0 <= i < c.profiles@.len(),
        c.profile_name(cli, env) == Some(c.profiles@[i].0@),
    ensures
        c.profile(cli, env) == Some(c.profiles@[i].1),
{
    lemma_is_first_index(c.profiles@, named(c.profiles@[i].0@), i);
}

/// A `~` that names a user is left alone.
pub proof fn law_tilde_user_is_kept(s: Seq<char>, home: Option<Seq<char>>)
    requires
        s.len() >= 2,
        s[0] == '~',
        s[1] != '/',
        s[1] != '\\',
    ensures
        tilde_expanded(s, home) == s,
{
    reveal_strlit("~");
}

/// A root that does not begin with `~` keeps its components when it is
/// expanded, whatever the home directory; a relative one goes below another
/// directory. A path of Windows is another matter.
pub proof fn law_root_keeps_its_components(s: Seq<char>, r: Seq<char>)
    requires
        expands(s, r),
        s.len() > 0,
        s[0] != '~',
        rooted(r),
        !windows(r),
        !windows(s),
    ensures
        rooted(s) ==> path_key(r) == path_key(s),
        !rooted(s) ==> ends_with_steps(r, s),
{
    reveal_strlit("~");
    let home = choose|home: Option<Seq<char>>|
        made_absolute(#[trigger] tilde_expanded(s, home), r);
    assert(tilde_expanded(s, home) == s);
}

/// The profile named on the command line is in force, whatever else is named; then
/// one named in the environment, where that is not empty; then the default one.
pub proof fn law_profile_in_force(c: ShokaConfig, cli: Seq<char>, env: Seq<char>)
    ensures
        c.profile_name(Some(cli), None) == Some(cli),
        c.profile_name(Some(cli), Some(env)) == Some(cli),
        env.len() > 0 ==> c.profile_name(None, Some(env)) == Some(env),
        env.len() == 0 ==> c.profile_name(None, Some(env)) == c.profile_name(None, None),
        c.profile_name(None, None) is Some == c.global.default_profile is Some,
        c.global.default_profile is Some ==> c.profile_name(None, None) == Some(
            c.global.default_profile->0@,
        ),
{
}

/// A profile is found exactly when one has the name in force.
pub proof fn law_profile_is_defined(
    c: ShokaConfig,
    cli: Option<Seq<char>>,
    env: Option<Seq<char>>,
)
    ensures
        c.profile(cli, env) is Some == (c.profile_name(cli, env) is Some && exists|i: int|
            0 <= i < c.profiles@.len() && (#[trigger] c.profiles@[i]).0@ == c.profile_name(
                cli,
                env,
            )->0),
{
    if let Some(name) = c.profile_name(cli, env) {
        lemma_first_index(c.profiles@, named(name));
        let k = c.profile_index(name);
        if k < c.profiles@.len() {
            assert(named(name)(c.profiles@[k]));
        } else {
            assert forall|i: int| 0 <= i < c.profiles@.len() implies (
            #[trigger] c.profiles@[i]).0@ != name by {
                assert(!named(name)(c.profiles@[i]));
            }
        }
    }
}

/// What the profile in force sets replaces what `[global]` sets, field by field;
/// what it leaves open is `[global]`'s.
pub proof fn law_profile_over_global(
    cfg: ShokaConfig,
    c: ResolvedConfig,
    cli: Option<Seq<char>>,
    env: Option<Seq<char>>,
    p: ProfileConfig,
)
    requires
        c.resolved_from(cfg, cli, env),
        cfg.profile(cli, env) == Some(p),
    ensures
        p.root is Some ==> c.profile_provided_root && cfg.root_text(Some(p)) == Some(p.root->0@),
        p.root is None ==> !c.profile_provided_root && cfg.root_text(Some(p)) == opt_text(
            cfg.global.root,
        ),
        p.layout is Some ==> c.layout@ == p.layout->0@,
        p.layout is None ==> c.layout@ == cfg.global.layout@,
        p.default_vcs is Some ==> c.default_vcs == p.default_vcs->0,
        p.default_vcs is None ==> c.default_vcs == cfg.global.default_vcs,
        p.default_protocol is Some ==> c.default_protocol == p.default_protocol->0,
        p.default_protocol is None ==> c.default_protocol == cfg.global.default_protocol,
        p.default_host is Some ==> c.default_host@ == p.default_host->0@,
        p.default_host is None ==> c.default_host@ == cfg.global.default_host@,
        p.exec_concurrency is Some && p.exec_concurrency->0 > 0 ==> c.exec_concurrency
            == p.exec_concurrency->0,
        p.exec_concurrency is None && cfg.global.exec_concurrency > 0 ==> c.exec_concurrency
            == cfg.global.exec_concurrency,
        pair_texts(c.git_config@) == pair_texts(p.git_config@),
{
}

/// Without a profile everything is as `[global]` sets it.
pub proof fn law_global_without_profile(
    cfg: ShokaConfig,
    c: ResolvedConfig,
    cli: Option<Seq<char>>,
    env: Option<Seq<char>>,
)
    requires
        c.resolved_from(cfg, cli, env),
        cfg.profile(cli, env) is None,
    ensures
        !c.profile_provided_root,
        cfg.root_text(cfg.profile(cli, env)) == opt_text(cfg.global.root),
        c.layout@ == cfg.global.layout@,
        c.default_vcs == cfg.global.default_vcs,
        c.default_protocol == cfg.global.default_protocol,
        c.default_host@ == cfg.global.default_host@,
        cfg.global.exec_concurrency > 0 ==> c.exec_concurrency == cfg.global.exec_concurrency,
        c.git_config@.len() == 0,
{
    assert(pair_texts(c.git_config@).len() == 0);
}

/// What no profile can set is as `[global]` sets it, but for a zero where there must
/// be at least one.
pub proof fn law_settings_of_global(
    cfg: ShokaConfig,
    c: ResolvedConfig,
    cli: Option<Seq<char>>,
    env: Option<Seq<char>>,
)
    requires
        c.resolved_from(cfg, cli, env),
    ensures
        c.auto_update == cfg.global.auto_update,
        opt_text(c.update_check_interval) == opt_text(cfg.global.update_check_interval),
        c.ui@.status_cache_ttl_secs == cfg.global.ui.status_cache_ttl_secs,
        c.ui@.tui_refresh_ms == cfg.global.ui.tui_refresh_ms,
        c.ui@.own_owners == texts(cfg.global.ui.own_owners@),
        cfg.global.ui.cd_page_size > 0 ==> c.ui@.cd_page_size == cfg.global.ui.cd_page_size,
        c.shell.cd_command_name@ == cfg.global.shell.cd_command_name@,
        c.cache.background_refresh == cfg.global.cache.background_refresh,
        c.cache.refresh_threshold_secs == cfg.global.cache.refresh_threshold_secs,
        cfg.global.cache.parallel_repos > 0 ==> c.cache.parallel_repos
            == cfg.global.cache.parallel_repos,
        c.routes@.len() == cfg.routes@.len(),
        forall|i: int| 0 <= i < cfg.routes@.len() ==> (#[trigger] c.routes@[i]).raw == cfg.routes@[i],
        forall|n: usize| #[trigger] floored(n) == (if n > 1 {
            n
        } else {
            1
        }),
{
    assert forall|i: int| 0 <= i < cfg.routes@.len() implies (#[trigger] c.routes@[i]).raw
        == cfg.routes@[i] by {
        assert(compiled_one(cfg.routes@[i], c.routes@[i].resolved_root, c.routes@[i]));
    }
}

/// A configuration can be used exactly when the profile that is named is defined, a
/// root is set, and every route has a pattern that compiles. What stands in the way
/// is told in this order, and of the routes the first.
pub proof fn law_refused_configurations(
    c: ShokaConfig,
    cli: Option<Seq<char>>,
    env: Option<Seq<char>>,
    e: ConfigError,
)
    ensures
        c.resolves(cli, env) == {
            &&& c.profile_name(cli, env) is Some ==> c.profile(cli, env) is Some
            &&& c.root_text(c.profile(cli, env)) is Some
            &&& forall|i: int|
                0 <= i < c.routes@.len() ==> pattern_of((#[trigger] c.routes@[i]).pattern@) is Ok
        },
        c.refused_with(cli, env, e) ==> !c.resolves(cli, env),
        c.refused_with(cli, env, e) && e is Route ==> {
            &&& e->index < c.routes@.len()
            &&& pattern_of(c.routes@[e->index as int].pattern@) is Err
            &&& forall|i: int|
                0 <= i < e->index ==> pattern_of((#[trigger] c.routes@[i]).pattern@) is Ok
        },
        c.refused_with(cli, env, e) ==> e is UnknownProfile == (c.profile_name(cli, env) is Some
            && c.profile(cli, env) is None),
{
    let bad = |r: Route| pattern_of(r.pattern@) is Err;
    lemma_first_index(c.routes@, bad);
    let k = c.bad_route();
    assert forall|i: int| 0 <= i < k implies pattern_of((#[trigger] c.routes@[i]).pattern@) is Ok by {
        assert(!bad(c.routes@[i]));
    }
    if k < c.routes@.len() {
        assert(bad(c.routes@[k]));
    }
}

/// What stands between two slashes is a regex, unless that does not compile; between
/// nothing there is none. A `host:` without a host, with an empty segment, or with
/// three segments is refused, and so is anything else.
pub proof fn law_refused_patterns(
    body: Seq<char>,
    a: Seq<char>,
    b: Seq<char>,
    rest: Seq<char>,
    other: Seq<char>,
)
    requires
        body.len() > 0,
        a.len() > 0,
        !a.contains('/'),
        b.len() > 0,
        !b.contains('/'),
        rest.len() > 0,
        other.len() > 0,
        other[0] != 'h' && other[0] != '/',
    ensures
        regex_fault(body) is None ==> pattern_of("/"@ + body + "/"@) == Ok::<
            PatternView,
            PatternFault,
        >(PatternView::Regex(body)),
        regex_fault(body) is Some ==> pattern_of("/"@ + body + "/"@) == Err::<
            PatternView,
            PatternFault,
        >(PatternFault::BadRegex),
        pattern_of("//"@) == Err::<PatternView, PatternFault>(PatternFault::EmptyRegex),
        pattern_of("host:"@) == Err::<PatternView, PatternFault>(PatternFault::EmptyHost),
        pattern_of("host:/"@ + a) == Err::<PatternView, PatternFault>(PatternFault::EmptySegment),
        pattern_of("host:"@ + a + "/"@) == Err::<PatternView, PatternFault>(
            PatternFault::EmptySegment,
        ),
        pattern_of("host:"@ + a + "/"@ + b + "/"@ + rest) == Err::<PatternView, PatternFault>(
            PatternFault::TooDeep,
        ),
        pattern_of(other) == Err::<PatternView, PatternFault>(PatternFault::Unknown),
{
    reveal_strlit("/");
    reveal_strlit("//");
    reveal_strlit("host:");
    reveal_strlit("host:/");
    let slash = |c: char| c == '/';
    let h = "host:"@;
    assert(h[0] == 'h' && h[1] == 'o' && h[2] == 's' && h[3] == 't' && h[4] == ':');
    assert("/"@[0] == '/' && "//"@[0] == '/' && "//"@[1] == '/');
    let re = "/"@ + body + "/"@;
    assert(re[0] == '/' && re.last() == '/');
    assert(!h.is_prefix_of(re)) by {
        assert(re[0] != h[0]);
    }
    assert(re.subrange(1, re.len() - 1) =~= body);
    assert(!h.is_prefix_of("//"@));
    assert("//"@.subrange(1, 1).len() == 0);
    assert(h.is_prefix_of(h)) by {
        assert(h.take(5) =~= h);
    }
    assert(h.skip(5).len() == 0);
    assert(h.is_prefix_of("host:/"@ + a)) by {
        let s = "host:/"@ + a;
        assert("host:/"@[0] == 'h' && "host:/"@[1] == 'o' && "host:/"@[2] == 's' && "host:/"@[3]
            == 't' && "host:/"@[4] == ':');
        assert(s.take(5) =~= h);
    }
    let one = ("host:/"@ + a).skip(5);
    assert(one[0] == "host:/"@[5] && "host:/"@[5] == '/');
    lemma_is_first_index(one, slash, 0);
    let two = h + a + "/"@;
    assert(h.is_prefix_of(two)) by {
        assert(two.take(5) =~= h);
    }
    let tail = two.skip(5);
    assert(tail =~= a + "/"@);
    let n = a.len() as int;
    assert forall|j: int| 0 <= j < n implies !slash(#[trigger] tail[j]) by {
        assert(tail[j] == a[j]);
        assert(a.contains(a[j]));
    }
    assert(tail[n] == '/');
    lemma_is_first_index(tail, slash, n);
    let deep = h + a + "/"@ + b + "/"@ + rest;
    assert(h.is_prefix_of(deep)) by {
        assert(deep.take(5) =~= h);
    }
    let under = deep.skip(5);
    assert(under =~= a + "/"@ + b + "/"@ + rest);
    assert forall|j: int| 0 <= j < n implies !slash(#[trigger] under[j]) by {
        assert(under[j] == a[j]);
        assert(a.contains(a[j]));
    }
    assert(under[n] == '/');
    lemma_is_first_index(under, slash, n);
    let last = under.skip(n + 1);
    assert(last[b.len() as int] == '/');
    assert(!h.is_prefix_of(other)) by {
        assert(other[0] != h[0]);
    }
}

/// Without a profile's root, a matching route sets what it has, and `[global]` the
/// rest; without a matching route all of it is `[global]`'s.
pub proof fn law_route_over_global(c: ResolvedConfig, spec: Seq<char>)
    requires
        !c.profile_provided_root,
        c.routes@.len() <= usize::MAX,
    ensures
        match c.target_of(spec).matched_route {
            Some(i) => {
                let route = c.routes@[i as int];
                let t = c.target_of(spec);
                &&& route.resolved_root is Some ==> t.root == route.resolved_root->0@
                &&& route.resolved_root is None ==> t.root == c.root@
                &&& route.raw.layout is Some ==> t.layout == route.raw.layout->0@
                &&& route.raw.layout is None ==> t.layout == c.raw.global.layout@
                &&& route.raw.default_vcs is Some ==> t.default_vcs == route.raw.default_vcs->0
                &&& route.raw.default_vcs is None ==> t.default_vcs == c.raw.global.default_vcs
                &&& route.raw.default_protocol is Some ==> t.default_protocol
                    == route.raw.default_protocol->0
                &&& route.raw.default_protocol is None ==> t.default_protocol
                    == c.raw.global.default_protocol
            },
            None => {
                let t = c.target_of(spec);
                &&& t.root == c.root@
                &&& t.layout == c.raw.global.layout@
                &&& t.default_vcs == c.raw.global.default_vcs
                &&& t.default_protocol == c.raw.global.default_protocol
            },
        },
{
    lemma_first_index(c.routes@, |r: CompiledRoute| r.pattern@.accepts(spec));
}

/// A path is rendered with what the row says of itself, with the root and the
/// protocol of its target, with the row's own version control system where it has
/// one and else the target's, and with the profile in force, or `default`.
pub proof fn law_fields_of_a_layout(c: ResolvedConfig, repo: RepoView)
    ensures
        ({
            let f = c.fields_of(repo);
            let t = c.target_of(repo.host + "/"@ + repo.owner + "/"@ + repo.name);
            &&& f.host == repo.host && f.owner == repo.owner && f.name == repo.name
            &&& f.root == t.root
            &&& f.protocol == protocol_text(t.default_protocol)
            &&& repo.vcs is Some ==> f.vcs == vcs_text(repo.vcs->0)
            &&& repo.vcs is None ==> f.vcs == vcs_text(t.default_vcs)
            &&& c.active_profile is Some ==> f.profile == c.active_profile->0@
            &&& c.active_profile is None ==> f.profile == "default"@
        }),
{
}

/// Each setting has a text of its own.
pub proof fn law_setting_texts_differ(a: VcsDefault, b: VcsDefault, p: Protocol, q: Protocol)
    ensures
        (vcs_text(a) == vcs_text(b)) == (a == b),
        (protocol_text(p) == protocol_text(q)) == (p == q),
        vcs_text(VcsDefault::Auto) == seq!['a', 'u', 't', 'o'],
        vcs_text(VcsDefault::Git) == seq!['g', 'i', 't'],
        vcs_text(VcsDefault::Jj) == seq!['j', 'j'],
        protocol_text(Protocol::Https) == seq!['h', 't', 't', 'p', 's'],
        protocol_text(Protocol::Ssh) == seq!['s', 's', 'h'],
{
    reveal_strlit("auto");
    reveal_strlit("git");
    reveal_strlit("jj");
    reveal_strlit("https");
    reveal_strlit("ssh");
    assert("auto"@.len() == 4 && "git"@.len() == 3 && "jj"@.len() == 2);
    assert("https"@.len() != "ssh"@.len());
    assert("auto"@ =~= seq!['a', 'u', 't', 'o']);
    assert("git"@ =~= seq!['g', 'i', 't']);
    assert("jj"@ =~= seq!['j', 'j']);
    assert("https"@ =~= seq!['h', 't', 't', 'p', 's']);
    assert("ssh"@ =~= seq!['s', 's', 'h']);
}

/// A hole is filled by the field that it names.
pub proof fn law_names_of_fields(f: LayoutFieldsView, word: Seq<char>)
    ensures
        field_of(f, "root"@) == Some(f.root),
        field_of(f, "host"@) == Some(f.host),
        field_of(f, "owner"@) == Some(f.owner),
        field_of(f, "name"@) == Some(f.name),
        field_of(f, "profile"@) == Some(f.profile),
        field_of(f, "vcs"@) == Some(f.vcs),
        field_of(f, "protocol"@) == Some(f.protocol),
        field_of(f, word) is Some == (word == "root"@ || word == "host"@ || word == "owner"@ || word
            == "name"@ || word == "profile"@ || word == "vcs"@ || word == "protocol"@),
{
    reveal_strlit("root");
    reveal_strlit("host");
    reveal_strlit("owner");
    reveal_strlit("name");
    reveal_strlit("profile");
    reveal_strlit("vcs");
    reveal_strlit("protocol");
    assert("root"@[0] == 'r' && "host"@[0] == 'h' && "owner"@[0] == 'o' && "name"@[0] == 'n'
        && "profile"@[0] == 'p' && "vcs"@[0] == 'v' && "protocol"@[0] == 'p');
    assert("profile"@.len() != "protocol"@.len());
}

/// A `~` by itself is the home directory, and one in front of a separator is what
/// lies below it. Nothing else changes, and nothing does without a home directory.
pub proof fn law_tilde_is_home(s: Seq<char>, rest: Seq<char>, home: Seq<char>)
    ensures
        tilde_expanded("~"@, Some(home)) == home,
        tilde_expanded("~/"@ + rest, Some(home)) == path_join(home, rest),
        tilde_expanded("~\\"@ + rest, Some(home)) == path_join(home, rest),
        tilde_expanded(s, None) == s,
        s.len() == 0 || s[0] != '~' ==> tilde_expanded(s, Some(home)) == s,
{
    reveal_strlit("~");
    reveal_strlit("~/");
    reveal_strlit("~\\");
    assert("~"@[0] == '~' && "~/"@[0] == '~' && "~/"@[1] == '/' && "~\\"@[0] == '~' && "~\\"@[1]
        == '\\');
    let a = "~/"@ + rest;
    let b = "~\\"@ + rest;
    assert(a.skip(2) =~= rest && b.skip(2) =~= rest);
    assert(a[0] == '~' && a[1] == '/' && b[0] == '~' && b[1] == '\\');
}

/// A configuration file has the default name exactly when it is called
/// `config.toml`, wherever it stands.
pub proof fn law_default_name(dirs: Seq<Seq<char>>, name: Seq<char>)
    requires
        plain_parts(dirs),
        plain_part(name),
        name != ".."@,
    ensures
        is_default_name(from_root(dirs.push(name))) == (name == "config.toml"@),
{
    law_parent_and_file_name(dirs, name);
}

/// Whether a file that was found is loaded when `explicit` was asked for.
pub open spec fn is_wanted(explicit: Seq<char>) -> spec_fn(FoundFile) -> bool {
    |f: FoundFile|
        file_name_of(f.path@) == Some("config.toml"@) ==> file_name_of(explicit) == Some(
            "config.toml"@,
        )
}

/// Every file that was found is loaded, in order; only a `config.toml` is left out,
/// and only where a file of another name was asked for.
pub proof fn law_files_that_are_loaded(found: Seq<FoundFile>, explicit: Seq<char>)
    ensures
        exists|out: Seq<FoundFile>| #[trigger]
            selects(found, is_wanted(explicit), out) && retained(found, explicit) == out.map_values(
                |f: FoundFile| f.path@,
            ),
{
    let at = lemma_filter_selects(found, is_wanted(explicit));
    lemma_retained(found, explicit);
}

proof fn lemma_retained(found: Seq<FoundFile>, explicit: Seq<char>)
    ensures
        retained(found, explicit) == found.filter(is_wanted(explicit)).map_values(
            |f: FoundFile| f.path@,
        ),
    decreases found.len(),
{
    reveal(Seq::filter);
    if found.len() > 0 {
        lemma_retained(found.drop_last(), explicit);
    }
    assert(retained(found, explicit) =~= found.filter(is_wanted(explicit)).map_values(
        |f: FoundFile| f.path@,
    ));
}

/// The file that was asked for is known to be among those that are loaded exactly
/// when one of them is: that one file more is loaded makes it known where that file
/// is the same.
pub proof fn law_known_files(
    found: Seq<FoundFile>,
    one: FoundFile,
    explicit: Seq<char>,
    canonical: Option<Seq<char>>,
)
    ensures
        !listed(Seq::empty(), explicit, canonical),
        listed(found.push(one), explicit, canonical) == (listed(found, explicit, canonical) || {
            &&& canonical is Some && one.canonical is Some
            &&& path_key(one.canonical->0@) == path_key(canonical->0)
            &&& is_wanted(explicit)(one)
        }),
{
    let more = found.push(one);
    if listed(found, explicit, canonical) {
        let k = choose|i: int|
            #![trigger found[i]]
            0 <= i < found.len() && found[i].canonical is Some && path_key(found[i].canonical->0@)
                == path_key(canonical->0) && (is_default_name(explicit) || !is_default_name(
                found[i].path@,
            ));
        assert(more[k] == found[k]);
    }
    assert(more[found.len() as int] == one);
    if listed(more, explicit, canonical) {
        let k = choose|i: int|
            #![trigger more[i]]
            0 <= i < more.len() && more[i].canonical is Some && path_key(more[i].canonical->0@)
                == path_key(canonical->0) && (is_default_name(explicit) || !is_default_name(
                more[i].path@,
            ));
        if k < found.len() {
            assert(found[k] == more[k]);
        }
    }
}

/// What is said of a configuration that cannot be used names the profile, the route, the
/// layout and the repository, or the file.
pub proof fn law_messages_name_what_is_wrong(e: ConfigError)
    ensures
        e matches ConfigError::UnknownProfile(name) ==> has(e.text(), name@),
        e matches ConfigError::Route { index, error } ==> has(
            e.text(),
            decimal(index as nat) + "] pattern: "@ + error.text(),
        ),
        e matches ConfigError::Layout { layout, slug, cause } ==> has(
            e.text(),
            layout@ + "` for "@ + slug@,
        ),
        e matches ConfigError::Exists(path) ==> has(e.text(), path@),
{
    match e {
        ConfigError::UnknownProfile(name) => {
            lemma_stands_between("profile `"@, name@, "` is not defined in config"@);
        },
        ConfigError::Route { index, error } => {
            let number = decimal(index as nat);
            lemma_told_in_order("compiling routes["@, number, "] pattern: "@, error.text());
        },
        ConfigError::Layout { layout, slug, cause } => {
            let head = "rendering layout `"@ + layout@ + "` for "@ + slug@;
            let told = layout@ + "` for "@ + slug@;
            lemma_told_in_order("rendering layout `"@, layout@, "` for "@, slug@);
            lemma_stands_in_longer(head, ": "@, told);
            lemma_stands_in_longer(head + ": "@, cause@, told);
        },
        ConfigError::Exists(path) => {
            lemma_stands_between("config file already exists at "@, path@, "; not overwriting"@);
        },
        _ => {},
    }
}

/// What is said of a refused pattern names it, unless that is the empty one; of a regex
/// that does not compile it tells why.
pub proof fn law_refusal_names_the_pattern(e: PatternError)
    ensures
        e.fault != PatternFault::EmptyRegex ==> has(e.text(), e.pattern@),
        e.fault == PatternFault::BadRegex ==> has(e.text(), e.cause@),
{
    let p = e.pattern@;
    match e.fault {
        PatternFault::EmptyHost => {
            lemma_stands_between("`host:` pattern requires a host name: `"@, p, "`"@);
        },
        PatternFault::EmptySegment => {
            lemma_stands_between("`host:<host>/<owner>` requires both segments: `"@, p, "`"@);
        },
        PatternFault::TooDeep => {
            lemma_stands_between(
                "`host:` shortcut supports `host:<host>` or `host:<host>/<owner>`; for deeper matches use `/<regex>/`: `"@,
                p,
                "`"@,
            );
        },
        PatternFault::EmptyRegex => {},
        PatternFault::BadRegex => {
            let head = "compiling regex pattern `"@;
            let tail = "`: "@ + e.cause@;
            let before = head;
            let after = tail;
            lemma_stands_between(before, p, after);
            assert(e.text() =~= before + p + after);
            let before = head + p + "`: "@;
            let before = before;
            let after = Seq::<char>::empty();
            lemma_stands_between(before, e.cause@, after);
            assert(e.text() =~= before + e.cause@ + after);
        },
        PatternFault::Unknown => {
            lemma_stands_between(
                "unknown route pattern `"@,
                p,
                "` — use `host:<host>`, `host:<host>/<owner>`, or `/<regex>/`"@,
            );
        },
    }
}

/// Where nothing is set there is no root, so the configuration cannot be used yet.
/// Otherwise repositories come from github.com over https into the flat tree, eight
/// commands run at once and as many repositories are refreshed, rows are fresh for a
/// minute, refreshes run in the background, and updates are neither looked for nor
/// installed.
pub proof fn law_defaults(g: GlobalConfig, c: ShokaConfig)
    requires
        g.is_default(),
        c.global == g,
    ensures
        g.root is None && c.root_text(None) is None && !c.resolves(None, None),
        g.layout@ == DEFAULT_LAYOUT@,
        g.default_host@ == "github.com"@,
        g.default_protocol == Protocol::Https,
        g.default_vcs == VcsDefault::Auto,
        g.default_profile is None && c.profile_name(None, None) is None,
        g.exec_concurrency == 8 && g.cache.parallel_repos == 8,
        g.cache.refresh_threshold_secs == 60 && g.cache.background_refresh,
        g.auto_update == AutoUpdateMode::Off && g.update_check_interval is None,
        g.ui@.own_owners.len() == 0 && g.ui@.cd_page_size == 15,
        g.shell.cd_command_name@ == "s"@,
        g.new.preset is None,
{
}

} // verus!
