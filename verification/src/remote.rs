//! Remote URLs: what a clone is made from, and which `host/owner/name` it is.
use vstd::prelude::*;
use vstd::string::*;

use crate::config::Protocol;
use crate::seqs::{first_index, lemma_first_index, lemma_is_first_index};
use crate::text::{
    chars_of, has, lemma_split_at, lemma_split_whole, lemma_stands_between, lemma_told_in_order,
    occurs_at, opt_text, split, split_on, stands_at, string_of, texts, trim, trimmed, white_space,
};

verus! {

/// The remote that a clone comes from.
#[derive(Debug, Clone, PartialEq, Eq)]
pub struct RemoteParts {
    pub host: String,
    pub owner: String,
    pub name: String,
}

/// The contents of [`RemoteParts`].
#[verifier::ext_equal]
pub struct RemotePartsView {
    pub host: Seq<char>,
    pub owner: Seq<char>,
    pub name: Seq<char>,
}

impl View for RemoteParts {
    type V = RemotePartsView;

    open spec fn view(&self) -> RemotePartsView {
        RemotePartsView { host: self.host@, owner: self.owner@, name: self.name@ }
    }
}

/// The parts of a parsed URL that name a remote: its host, where it has one,
/// and its path, where that is text.
#[derive(Debug, Clone)]
pub struct RemoteUrl {
    pub host: Option<String>,
    pub path: Option<String>,
}

/// What is wrong with a URL that names no `owner/name` on a host.
#[derive(Debug, Clone, Copy, PartialEq, Eq, Structural)]
pub enum PartsFault {
    NoHost,
    NotText,
    NoOwner,
    NoName,
    TooDeep,
}

/// A URL that names no `owner/name` on a host, with the path that it has.
#[derive(Debug)]
pub struct PartsError {
    pub fault: PartsFault,
    pub path: String,
}

impl PartsError {
    /// The text of the message.
    pub open spec fn text(self) -> Seq<char> {
        match self.fault {
            PartsFault::NoHost => "remote URL has no host"@,
            PartsFault::NotText => "remote URL path is not UTF-8"@,
            PartsFault::NoOwner => "remote URL has no owner segment"@,
            PartsFault::NoName => "remote URL has no name segment"@,
            PartsFault::TooDeep => "remote URL path `"@ + self.path@
                + "` has more than two segments"@,
        }
    }

    /// The message shown to the user.
    pub fn message(&self) -> (r: String)
        ensures
            r@ == self.text(),
    {
        match self.fault {
            PartsFault::NoHost => "remote URL has no host".to_owned(),
            PartsFault::NotText => "remote URL path is not UTF-8".to_owned(),
            PartsFault::NoOwner => "remote URL has no owner segment".to_owned(),
            PartsFault::NoName => "remote URL has no name segment".to_owned(),
            PartsFault::TooDeep => "remote URL path `".to_owned().concat(
                self.path.as_str(),
            ).concat("` has more than two segments"),
        }
    }
}

/// `s` without the slashes that it starts with.
pub open spec fn no_leading_slash(s: Seq<char>) -> Seq<char>
    decreases s.len(),
{
    if s.len() > 0 && s[0] == '/' {
        no_leading_slash(s.skip(1))
    } else {
        s
    }
}

/// `s` without the slashes that it ends with.
pub open spec fn no_trailing_slash(s: Seq<char>) -> Seq<char>
    decreases s.len(),
{
    if s.len() > 0 && s.last() == '/' {
        no_trailing_slash(s.drop_last())
    } else {
        s
    }
}

/// `s` without one `.git` at its end.
pub open spec fn no_git_suffix(s: Seq<char>) -> Seq<char> {
    if occurs_at(s, ".git"@, s.len() - 4) {
        s.take(s.len() - 4)
    } else {
        s
    }
}

/// The path of a URL, without the slashes around it and then without `.git`.
pub open spec fn bare_path(path: Seq<char>) -> Seq<char> {
    no_git_suffix(no_trailing_slash(no_leading_slash(path)))
}

/// The remote that a URL's host and path name, or what is wrong with them.
pub open spec fn parts_of(host: Option<Seq<char>>, path: Option<Seq<char>>) -> Result<
    RemotePartsView,
    PartsFault,
> {
    if host is None {
        Err(PartsFault::NoHost)
    } else if path is None {
        Err(PartsFault::NotText)
    } else {
        let p = bare_path(path->0);
        let slash = first_index(p, |c: char| c == '/');
        let name = p.skip(slash + 1);
        if slash == 0 || p.len() == 0 {
            Err(PartsFault::NoOwner)
        } else if slash >= p.len() - 1 {
            Err(PartsFault::NoName)
        } else if name.contains('/') {
            Err(PartsFault::TooDeep)
        } else {
            Ok(RemotePartsView { host: host->0, owner: p.take(slash), name })
        }
    }
}

/// The path of a URL, without the slashes around it and then without `.git`.
fn bare_path_of(path: &str) -> (r: Vec<char>)
    ensures
        r@ == bare_path(path@),
{
    proof {
        reveal_strlit(".git");
    }
    let v = chars_of(path);
    let mut from: usize = 0;
    assert(v@.skip(0) =~= v@);
    while from < v.len() && v[from] == '/'
        invariant
            v@ == path@,
            from <= v@.len(),
            no_leading_slash(path@) == no_leading_slash(v@.skip(from as int)),
        decreases v@.len() - from,
    {
        assert(v@.skip(from as int).skip(1) =~= v@.skip(from + 1));
        from = from + 1;
    }
    let ghost head = no_leading_slash(path@);
    assert(head == v@.skip(from as int));
    let mut to: usize = v.len();
    assert(v@.subrange(from as int, to as int) =~= v@.skip(from as int));
    while from < to && v[to - 1] == '/'
        invariant
            v@ == path@,
            from <= to <= v@.len(),
            no_trailing_slash(head) == no_trailing_slash(v@.subrange(from as int, to as int)),
        decreases to,
    {
        assert(v@.subrange(from as int, to as int).drop_last() =~= v@.subrange(
            from as int,
            to - 1,
        ));
        to = to - 1;
    }
    let trimmed = string_of(&v, from, to);
    let t = chars_of(trimmed.as_str());
    let suffix = chars_of(".git");
    let n: usize = t.len();
    let mut out: Vec<char> = Vec::new();
    let end: usize = if n >= 4 && stands_at(&t, &suffix, n - 4) {
        n - 4
    } else {
        n
    };
    let mut i: usize = 0;
    while i < end
        invariant
            i <= end <= t@.len(),
            out@ == t@.take(i as int),
        decreases end - i,
    {
        out.push(t[i]);
        i = i + 1;
    }
    assert(t@.take(n as int) =~= t@);
    out
}

/// The position of the first slash, or the length.
fn first_slash(v: &[char]) -> (r: usize)
    ensures
        r == first_index(v@, |c: char| c == '/'),
        r <= v@.len(),
        forall|j: int| 0 <= j < r ==> v@[j] != '/',
        r < v@.len() ==> v@[r as int] == '/',
{
    let ghost p = |c: char| c == '/';
    let mut i: usize = 0;
    while i < v.len()
        invariant
            p == (|c: char| c == '/'),
            i <= v@.len(),
            forall|j: int| 0 <= j < i ==> !p(#[trigger] v@[j]),
        decreases v@.len() - i,
    {
        if v[i] == '/' {
            proof {
                lemma_is_first_index(v@, p, i as int);
            }
            return i;
        }
        i = i + 1;
    }
    proof {
        lemma_is_first_index(v@, p, i as int);
    }
    i
}

/// The remote that a URL names. Its path must be `owner/name`, up to slashes
/// around it and one `.git` at its end.
pub fn parse_remote_url(url: &RemoteUrl) -> (r: Result<RemoteParts, PartsError>)
    ensures
        match r {
            Ok(p) => parts_of(opt_text(url.host), opt_text(url.path)) == Ok::<
                RemotePartsView,
                PartsFault,
            >(p@),
            Err(e) => parts_of(opt_text(url.host), opt_text(url.path)) == Err::<
                RemotePartsView,
                PartsFault,
            >(e.fault) && (e.fault == PartsFault::TooDeep ==> e.path@ == bare_path(url.path->0@)),
        },
{
    let host = match &url.host {
        Some(h) => h.clone(),
        None => {
            return Err(PartsError { fault: PartsFault::NoHost, path: String::new() });
        },
    };
    let path = match &url.path {
        Some(p) => bare_path_of(p.as_str()),
        None => {
            return Err(PartsError { fault: PartsFault::NotText, path: String::new() });
        },
    };
    let n: usize = path.len();
    let slash: usize = first_slash(&path);
    if slash == 0 || n == 0 {
        return Err(PartsError { fault: PartsFault::NoOwner, path: String::new() });
    }
    if slash >= n - 1 {
        return Err(PartsError { fault: PartsFault::NoName, path: String::new() });
    }
    let owner = string_of(&path, 0, slash);
    assert(owner@ =~= path@.take(slash as int));
    let name = string_of(&path, slash + 1, n);
    assert(name@ =~= path@.skip(slash + 1));
    let tail = chars_of(name.as_str());
    let deeper: usize = first_slash(&tail);
    if deeper < tail.len() {
        assert(name@.contains('/')) by {
            assert(name@[deeper as int] == '/');
        }
        let whole = string_of(&path, 0, n);
        assert(whole@ =~= path@);
        return Err(PartsError { fault: PartsFault::TooDeep, path: whole });
    }
    assert(!name@.contains('/'));
    Ok(RemoteParts { host, owner, name })
}

/// The URL text for a remote: `https://<host>/<owner>/<name>.git`, or
/// `git@<host>:<owner>/<name>.git`.
pub open spec fn url_for(
    host: Seq<char>,
    owner: Seq<char>,
    name: Seq<char>,
    protocol: Protocol,
) -> Seq<char> {
    match protocol {
        Protocol::Https => "https://"@ + host + "/"@ + owner + "/"@ + name + ".git"@,
        Protocol::Ssh => "git@"@ + host + ":"@ + owner + "/"@ + name + ".git"@,
    }
}

/// The URL text for a remote.
pub fn build_url(host: &str, owner: &str, name: &str, protocol: Protocol) -> (r: String)
    ensures
        r@ == url_for(host@, owner@, name@, protocol),
{
    match protocol {
        Protocol::Https => "https://".to_owned().concat(host).concat("/").concat(owner).concat(
            "/",
        ).concat(name).concat(".git"),
        Protocol::Ssh => "git@".to_owned().concat(host).concat(":").concat(owner).concat(
            "/",
        ).concat(name).concat(".git"),
    }
}

/// Whether the text is a URL and not a shorthand: any colon makes it one.
pub fn looks_like_url(s: &str) -> (r: bool)
    ensures
        r == s@.contains(':'),
{
    let v = chars_of(s);
    let mut i: usize = 0;
    while i < v.len()
        invariant
            v@ == s@,
            i <= v@.len(),
            forall|j: int| 0 <= j < i ==> v@[j] != ':',
        decreases v@.len() - i,
    {
        if v[i] == ':' {
            assert(s@[i as int] == ':');
            return true;
        }
        i = i + 1;
    }
    false
}

/// What is wrong with a clone input before it is a URL.
#[derive(Debug, Clone, Copy, PartialEq, Eq, Structural)]
pub enum InputFault {
    Empty,
    Shape,
}

/// The URL that a clone input stands for: itself when it has a colon, else
/// the one built from `owner/name` or `host/owner/name`.
pub open spec fn url_of_input(input: Seq<char>, host: Seq<char>, protocol: Protocol) -> Result<
    Seq<char>,
    InputFault,
> {
    let t = trimmed(input);
    let segs = split(t, '/');
    if t.len() == 0 {
        Err(InputFault::Empty)
    } else if t.contains(':') {
        Ok(t)
    } else if segs.len() == 2 && segs[0].len() > 0 && segs[1].len() > 0 {
        Ok(url_for(host, segs[0], segs[1], protocol))
    } else if segs.len() == 3 && segs[0].len() > 0 && segs[1].len() > 0 && segs[2].len() > 0 {
        Ok(url_for(segs[0], segs[1], segs[2], protocol))
    } else {
        Err(InputFault::Shape)
    }
}

/// A clone input that was refused.
#[derive(Debug)]
pub enum CloneInputError {
    /// Nothing was given.
    Empty,
    /// Neither a URL nor a shorthand; holds the input.
    Shape(String),
    /// The URL does not parse.
    Unparsed { url: String, cause: String },
    /// The URL names no remote.
    Parts { url: String, error: PartsError },
}

impl CloneInputError {
    /// The text of the message.
    pub open spec fn text(self) -> Seq<char> {
        match self {
            CloneInputError::Empty => "empty clone input — pass a URL or `owner/name`"@,
            CloneInputError::Shape(t) => "input `"@ + t@
                + "` is neither a URL nor `<owner>/<name>` / `<host>/<owner>/<name>` shape; pass a full URL or use the ghq-style shorthand"@,
            CloneInputError::Unparsed { url, cause } => "parsing clone URL `"@ + url@ + "`: "@
                + cause@,
            CloneInputError::Parts { url, error } => "extracting host/owner/name from `"@ + url@
                + "`: "@ + error.text(),
        }
    }

    /// The message shown to the user.
    pub fn message(&self) -> (r: String)
        ensures
            r@ == self.text(),
    {
        match self {
            CloneInputError::Empty => "empty clone input — pass a URL or `owner/name`".to_owned(),
            CloneInputError::Shape(t) => "input `".to_owned().concat(t.as_str()).concat(
                "` is neither a URL nor `<owner>/<name>` / `<host>/<owner>/<name>` shape; pass a full URL or use the ghq-style shorthand",
            ),
            CloneInputError::Unparsed { url, cause } => "parsing clone URL `".to_owned().concat(
                url.as_str(),
            ).concat("`: ").concat(cause.as_str()),
            CloneInputError::Parts { url, error } => "extracting host/owner/name from `".to_owned().concat(
                url.as_str(),
            ).concat("`: ").concat(error.message().as_str()),
        }
    }
}

/// The URL that a clone input stands for.
pub fn clone_url(input: &str, default_host: &str, protocol: Protocol) -> (r: Result<
    String,
    CloneInputError,
>)
    ensures
        match url_of_input(input@, default_host@, protocol) {
            Ok(url) => r matches Ok(u) && u@ == url,
            Err(InputFault::Empty) => r matches Err(CloneInputError::Empty),
            Err(InputFault::Shape) => r matches Err(CloneInputError::Shape(t)) && t@ == trimmed(
                input@,
            ),
        },
{
    let t = trim(input);
    if t.as_str().is_empty() {
        return Err(CloneInputError::Empty);
    }
    if looks_like_url(t.as_str()) {
        return Ok(t);
    }
    let segs = split_on(t.as_str(), '/');
    let ghost pieces = split(t@, '/');
    assert(pieces.len() == segs@.len());
    assert forall|i: int| 0 <= i < segs@.len() implies pieces[i] == #[trigger] segs@[i]@ by {
        assert(texts(segs@)[i] == segs@[i]@);
    }
    if segs.len() == 2 && !segs[0].as_str().is_empty() && !segs[1].as_str().is_empty() {
        return Ok(build_url(default_host, segs[0].as_str(), segs[1].as_str(), protocol));
    }
    if segs.len() == 3 && !segs[0].as_str().is_empty() && !segs[1].as_str().is_empty()
        && !segs[2].as_str().is_empty() {
        return Ok(
            build_url(segs[0].as_str(), segs[1].as_str(), segs[2].as_str(), protocol),
        );
    }
    Err(CloneInputError::Shape(t))
}

/// What `gix::url::parse` gives for a text: the host and the path of the URL,
/// or the text of the error.
pub uninterp spec fn parsed_url(text: Seq<char>) -> Result<
    (Option<Seq<char>>, Option<Seq<char>>),
    Seq<char>,
>;

/// Texts that the parser reads differently on Windows: `file:` URLs, and those
/// that start like a path on a drive.
pub open spec fn platform_bound(text: Seq<char>) -> bool {
    occurs_at(text, "file:"@, 0) || (text.len() >= 2 && text[1] == ':')
}

/// A host name that stands in a URL as it is: lower-case letters, digits, `-`,
/// `.` and `_`.
pub open spec fn plain_host(s: Seq<char>) -> bool {
    s.len() > 0 && forall|i: int|
        0 <= i < s.len() ==> ('a' <= #[trigger] s[i] <= 'z' || '0' <= s[i] <= '9' || s[i] == '-'
            || s[i] == '.' || s[i] == '_')
}

/// A path that starts at the root and stands in a URL as it is: without white
/// space and without escapes.
pub open spec fn plain_path(s: Seq<char>) -> bool {
    s.len() > 0 && s[0] == '/' && forall|i: int|
        0 <= i < s.len() ==> !white_space(#[trigger] s[i]) && s[i] != '%'
}

/// Whether `text` spells this host and this path in one of the usual forms:
/// `https://host/path`, `ssh://git@host/path`, `git@host:path` or `host:path`.
/// In the first two, at most 1024 characters stand in front of the path.
pub open spec fn plain_url(text: Seq<char>, host: Seq<char>, path: Seq<char>) -> bool {
    &&& plain_host(host)
    &&& {
        ||| plain_path(path) && host.len() <= 1024 && text == "https://"@ + host + path
        ||| {
            &&& plain_path(path) && !occurs_at(path, "/~"@, 0)
            &&& host.len() <= 1020 && text == "ssh://git@"@ + host + path
        }
        ||| {
            &&& path.len() > 0 && path[0] != '/' && !path.contains(':')
            &&& text == "git@"@ + host + ":"@ + path || (host.len() > 1 && text == host + ":"@
                + path)
        }
    }
}

/// Whether `r` is the host and the path that `text` spells, where it is in one
/// of the usual forms.
pub open spec fn reads_plain_urls(text: Seq<char>, r: Result<RemoteUrl, String>) -> bool {
    forall|host: Seq<char>, path: Seq<char>| #[trigger]
        plain_url(text, host, path) ==> (r matches Ok(url) && opt_text(url.host) == Some(host)
            && opt_text(url.path) == Some(path))
}

/// `gix::url::parse`: the URL's host, and its path where that is text; or the
/// text of the error. Except for the texts read differently on Windows, the
/// outcome is a function of the text alone; of those nothing is claimed but
/// what follows. A text in one of the usual forms parses, to the host and the
/// path that it spells.
#[verifier::external_body]
pub(crate) fn parse_url(text: &str) -> (r: Result<RemoteUrl, String>)
    ensures
        reads_plain_urls(text@, r),
        match r {
            Ok(url) => platform_bound(text@) || parsed_url(text@) == Ok::<
                (Option<Seq<char>>, Option<Seq<char>>),
                Seq<char>,
            >((opt_text(url.host), opt_text(url.path))),
            Err(e) => platform_bound(text@) || parsed_url(text@) == Err::<
                (Option<Seq<char>>, Option<Seq<char>>),
                Seq<char>,
            >(e@),
        },
{
    let url = gix::url::parse(text).map_err(|e| e.to_string())?;
    let host = url.host().map(|h| h.to_owned());
    Ok(RemoteUrl { host, path: String::from_utf8(url.path.into()).ok() })
}

/// Whether `r` is what a URL text and the outcome of parsing it lead to.
pub open spec fn clone_outcome(
    url: Seq<char>,
    parsed: Result<(Option<Seq<char>>, Option<Seq<char>>), Seq<char>>,
    r: Result<(RemoteParts, String), CloneInputError>,
) -> bool {
    match parsed {
        Err(cause) => r matches Err(CloneInputError::Unparsed { url: u, cause: c }) && u@ == url
            && c@ == cause,
        Ok((host, path)) => match parts_of(host, path) {
            Ok(parts) => r matches Ok((p, u)) && p@ == parts && u@ == url,
            Err(fault) => r matches Err(CloneInputError::Parts { url: u, error }) && u@ == url
                && error.fault == fault && (fault == PartsFault::TooDeep ==> error.path@
                == bare_path(path->0)),
        },
    }
}

/// The outcome of parsing a URL, as texts.
pub open spec fn outcome_texts(parsed: Result<RemoteUrl, String>) -> Result<
    (Option<Seq<char>>, Option<Seq<char>>),
    Seq<char>,
> {
    match parsed {
        Ok(url) => Ok((opt_text(url.host), opt_text(url.path))),
        Err(e) => Err(e@),
    }
}

/// The remote and the URL to clone from, given what parsing the URL gave.
pub fn clone_source(url: String, parsed: Result<RemoteUrl, String>) -> (r: Result<
    (RemoteParts, String),
    CloneInputError,
>)
    ensures
        clone_outcome(url@, outcome_texts(parsed), r),
{
    match parsed {
        Err(cause) => Err(CloneInputError::Unparsed { url, cause }),
        Ok(found) => match parse_remote_url(&found) {
            Ok(parts) => Ok((parts, url)),
            Err(error) => Err(CloneInputError::Parts { url, error }),
        },
    }
}

/// The remote and the URL to clone from that an input stands for: a URL as it
/// is, `owner/name` on the default host, or `host/owner/name`. Anything else
/// is refused. A shorthand of plain segments is never refused, and names the
/// repository that it spells.
pub fn parse_clone_input(input: &str, default_host: &str, default_protocol: Protocol) -> (r: Result<
    (RemoteParts, String),
    CloneInputError,
>)
    ensures
        match url_of_input(input@, default_host@, default_protocol) {
            Err(InputFault::Empty) => r matches Err(CloneInputError::Empty),
            Err(InputFault::Shape) => r matches Err(CloneInputError::Shape(t)) && t@ == trimmed(
                input@,
            ),
            Ok(url) => {
                &&& !platform_bound(url) ==> clone_outcome(url, parsed_url(url), r)
                &&& exists|parsed: Result<(Option<Seq<char>>, Option<Seq<char>>), Seq<char>>| #[trigger]
                    clone_outcome(url, parsed, r)
                &&& forall|host: Seq<char>, path: Seq<char>| #[trigger]
                    plain_url(url, host, path) ==> clone_outcome(
                        url,
                        Ok((Some(host), Some(path))),
                        r,
                    )
            },
        },
        forall|parts: RemotePartsView| #[trigger]
            is_shorthand(trimmed(input@), parts, default_host@, default_protocol) ==> (r matches Ok(
                (p, u),
            ) && p@ == parts && u@ == url_for(
                parts.host,
                parts.owner,
                parts.name,
                default_protocol,
            )),
        forall|parts: RemotePartsView| #[trigger]
            spells(trimmed(input@), parts) ==> (r matches Ok((p, u)) && p@ == parts && u@
                == trimmed(input@)),
{
    proof {
        assert forall|parts: RemotePartsView| #[trigger] spells(trimmed(input@), parts) implies ({
            &&& url_of_input(input@, default_host@, default_protocol) == Ok::<
                Seq<char>,
                InputFault,
            >(trimmed(input@))
            &&& exists|path: Seq<char>| #[trigger]
                plain_url(trimmed(input@), parts.host, path) && parts_of(
                    Some(parts.host),
                    Some(path),
                ) == Ok::<RemotePartsView, PartsFault>(parts)
        }) by {
            lemma_spells(trimmed(input@), parts);
        }
        assert forall|parts: RemotePartsView| #[trigger]
            is_shorthand(trimmed(input@), parts, default_host@, default_protocol) implies ({
            let url = url_for(parts.host, parts.owner, parts.name, default_protocol);
            let path = path_for(parts.owner, parts.name, default_protocol);
            &&& url_of_input(input@, default_host@, default_protocol) == Ok::<
                Seq<char>,
                InputFault,
            >(url)
            &&& plain_url(url, parts.host, path)
            &&& parts_of(Some(parts.host), Some(path)) == Ok::<RemotePartsView, PartsFault>(parts)
        }) by {
            lemma_shorthand(input@, parts, default_host@, default_protocol);
        }
    }
    let url = match clone_url(input, default_host, default_protocol) {
        Ok(url) => url,
        Err(e) => {
            return Err(e);
        },
    };
    let parsed = parse_url(url.as_str());
    let ghost u = url@;
    let ghost p = outcome_texts(parsed);
    let r = clone_source(url, parsed);
    assert(clone_outcome(u, p, r));
    r
}

/// The remote that the text of a URL names.
pub fn remote_of_url(text: &str) -> (r: Result<(RemoteParts, String), CloneInputError>)
    ensures
        !platform_bound(text@) ==> clone_outcome(text@, parsed_url(text@), r),
        exists|parsed: Result<(Option<Seq<char>>, Option<Seq<char>>), Seq<char>>| #[trigger]
            clone_outcome(text@, parsed, r),
        forall|host: Seq<char>, path: Seq<char>| #[trigger]
            plain_url(text@, host, path) ==> clone_outcome(
                text@,
                Ok((Some(host), Some(path))),
                r,
            ),
        forall|parts: RemotePartsView| #[trigger]
            spells(text@, parts) ==> (r matches Ok((p, u)) && p@ == parts && u@ == text@),
{
    proof {
        assert forall|parts: RemotePartsView| #[trigger] spells(text@, parts) implies (exists|
            path: Seq<char>,
        | #[trigger]
            plain_url(text@, parts.host, path) && parts_of(Some(parts.host), Some(path)) == Ok::<
                RemotePartsView,
                PartsFault,
            >(parts)) by {
            lemma_spells(text@, parts);
        }
    }
    let parsed = parse_url(text);
    let ghost p = outcome_texts(parsed);
    let r = clone_source(text.to_owned(), parsed);
    assert(clone_outcome(text@, p, r));
    r
}

/// A segment of a shorthand: not empty, without a slash, a colon, or white
/// space.
pub open spec fn plain_segment(s: Seq<char>) -> bool {
    s.len() > 0 && forall|i: int|
        0 <= i < s.len() ==> #[trigger] s[i] != '/' && s[i] != ':' && !white_space(s[i])
}

/// Whether `input` is the shorthand for a repository: `owner/name` on the
/// default host or `host/owner/name`, of a plain host and plain segments. In an
/// `https` URL `%` starts an escape, so there the segments have none, and the
/// host has at most 1024 characters.
pub open spec fn is_shorthand(
    input: Seq<char>,
    parts: RemotePartsView,
    default_host: Seq<char>,
    protocol: Protocol,
) -> bool {
    &&& plain_host(parts.host)
    &&& plain_segment(parts.owner)
    &&& plain_segment(parts.name)
    &&& protocol == Protocol::Https ==> parts.host.len() <= 1024 && !parts.owner.contains('%')
        && !parts.name.contains('%')
    &&& {
        ||| input == parts.host + "/"@ + parts.owner + "/"@ + parts.name
        ||| parts.host == default_host && input == parts.owner + "/"@ + parts.name
    }
}

/// The path of the URL for a repository.
pub open spec fn path_for(owner: Seq<char>, name: Seq<char>, protocol: Protocol) -> Seq<char> {
    match protocol {
        Protocol::Https => "/"@ + owner + "/"@ + name + ".git"@,
        Protocol::Ssh => owner + "/"@ + name + ".git"@,
    }
}

proof fn lemma_shorthand(
    input: Seq<char>,
    parts: RemotePartsView,
    default_host: Seq<char>,
    protocol: Protocol,
)
    requires
        is_shorthand(trimmed(input), parts, default_host, protocol),
    ensures
        ({
            let url = url_for(parts.host, parts.owner, parts.name, protocol);
            let path = path_for(parts.owner, parts.name, protocol);
            &&& url_of_input(input, default_host, protocol) == Ok::<Seq<char>, InputFault>(url)
            &&& plain_url(url, parts.host, path)
            &&& parts_of(Some(parts.host), Some(path)) == Ok::<RemotePartsView, PartsFault>(parts)
        }),
{
    reveal_strlit("/");
    reveal_strlit(".git");
    let t = trimmed(input);
    let two = parts.owner + "/"@ + parts.name;
    assert(plain_segment(parts.host));
    law_shorthands(parts.host, parts.owner, parts.name, default_host, protocol);
    assert(t[0] == parts.host[0] || t[0] == parts.owner[0]);
    assert(t.last() == parts.name.last());
    assert(trimmed(t) == t);
    let url = url_for(parts.host, parts.owner, parts.name, protocol);
    let path = path_for(parts.owner, parts.name, protocol);
    assert forall|i: int| 0 <= i < two.len() implies !white_space(#[trigger] two[i]) && two[i]
        != ':' && (protocol == Protocol::Https ==> two[i] != '%') by {
        if i < parts.owner.len() {
            assert(two[i] == parts.owner[i]);
            assert(parts.owner.contains(parts.owner[i]));
        } else if i > parts.owner.len() {
            let j = i - parts.owner.len() - 1;
            assert(two[i] == parts.name[j]);
            assert(parts.name.contains(parts.name[j]));
        }
    }
    let bare = two + ".git"@;
    assert forall|i: int| 0 <= i < bare.len() implies !white_space(#[trigger] bare[i]) && bare[i]
        != ':' && (protocol == Protocol::Https ==> bare[i] != '%') by {
        if i < two.len() {
            assert(bare[i] == two[i]);
        }
    }
    match protocol {
        Protocol::Https => {
            assert(path =~= "/"@ + bare);
            assert(url =~= "https://"@ + parts.host + path);
            assert(plain_path(path)) by {
                assert forall|i: int| 0 <= i < path.len() implies !white_space(#[trigger] path[i])
                    && path[i] != '%' by {
                    if i > 0 {
                        assert(path[i] == bare[i - 1]);
                    }
                }
            }
            assert(path.skip(1) =~= bare);
        },
        Protocol::Ssh => {
            assert(path =~= bare);
            assert(url =~= "git@"@ + parts.host + ":"@ + path);
        },
    }
    assert(bare[0] == parts.owner[0]);
    assert(no_leading_slash(bare) == bare);
    assert(no_leading_slash(path) == bare);
    assert(bare.last() == 't');
    assert(no_trailing_slash(bare) == bare);
    assert(bare.subrange(bare.len() - 4, bare.len() as int) =~= ".git"@);
    assert(bare.take(bare.len() - 4) =~= two);
    assert(bare_path(path) == two);
    assert(two[parts.owner.len() as int] == '/');
    assert forall|j: int| 0 <= j < parts.owner.len() implies two[j] != '/' by {
        assert(two[j] == parts.owner[j]);
    }
    lemma_is_first_index(two, |c: char| c == '/', parts.owner.len() as int);
    assert(two.take(parts.owner.len() as int) =~= parts.owner);
    assert(two.skip(parts.owner.len() as int + 1) =~= parts.name);
}

/// `owner/name` stands for the URL of that repository on the default host, and
/// `host/owner/name` for its URL on the host named, whatever the default.
pub proof fn law_shorthands(
    host: Seq<char>,
    owner: Seq<char>,
    name: Seq<char>,
    default_host: Seq<char>,
    protocol: Protocol,
)
    requires
        plain_segment(host),
        plain_segment(owner),
        plain_segment(name),
    ensures
        url_of_input(owner + "/"@ + name, default_host, protocol) == Ok::<Seq<char>, InputFault>(
            url_for(default_host, owner, name, protocol),
        ),
        url_of_input(host + "/"@ + owner + "/"@ + name, default_host, protocol) == Ok::<
            Seq<char>,
            InputFault,
        >(url_for(host, owner, name, protocol)),
{
    reveal_strlit("/");
    let two = owner + "/"@ + name;
    let three = host + "/"@ + owner + "/"@ + name;
    assert(two =~= owner.push('/') + name);
    assert(three =~= host.push('/') + two);
    lemma_split_at(owner, '/', name);
    lemma_split_at(host, '/', two);
    lemma_split_whole(host, '/');
    lemma_split_whole(owner, '/');
    lemma_split_whole(name, '/');
    assert(split(two, '/') =~= seq![owner, name]);
    assert(split(three, '/') =~= seq![host, owner, name]);
    assert(two[0] == owner[0] && two.last() == name.last());
    assert(three[0] == host[0] && three.last() == name.last());
    assert(trimmed(two) == two);
    assert(trimmed(three) == three);
    assert(!two.contains(':')) by {
        assert forall|i: int| 0 <= i < two.len() implies two[i] != ':' by {
            if i < owner.len() {
                assert(two[i] == owner[i]);
            } else if i > owner.len() {
                assert(two[i] == name[i - owner.len() - 1]);
            }
        }
    }
    assert(!three.contains(':')) by {
        assert forall|i: int| 0 <= i < three.len() implies three[i] != ':' by {
            if i < host.len() {
                assert(three[i] == host[i]);
            } else if i > host.len() {
                assert(three[i] == two[i - host.len() - 1]);
                assert(!two.contains(':'));
                assert(two.contains(two[i - host.len() - 1]));
            }
        }
    }
}

/// A URL given as input is used as it is.
pub proof fn law_urls_pass_through(url: Seq<char>, default_host: Seq<char>, protocol: Protocol)
    requires
        url.contains(':'),
        trimmed(url) == url,
    ensures
        url_of_input(url, default_host, protocol) == Ok::<Seq<char>, InputFault>(url),
{
}

/// What a URL names is always an owner and a name, neither empty nor holding a
/// slash.
pub proof fn law_remote_has_two_segments(host: Option<Seq<char>>, path: Option<Seq<char>>)
    requires
        parts_of(host, path) is Ok,
    ensures
        ({
            let parts = parts_of(host, path)->Ok_0;
            &&& host == Some(parts.host)
            &&& parts.owner.len() > 0 && !parts.owner.contains('/')
            &&& parts.name.len() > 0 && !parts.name.contains('/')
            &&& bare_path(path->0) == parts.owner + "/"@ + parts.name
        }),
{
    reveal_strlit("/");
    let p = bare_path(path->0);
    let slash = first_index(p, |c: char| c == '/');
    lemma_first_index(p, |c: char| c == '/');
    let parts = parts_of(host, path)->Ok_0;
    assert forall|j: int| 0 <= j < parts.owner.len() implies parts.owner[j] != '/' by {
        assert(parts.owner[j] == p[j]);
    }
    assert(p =~= parts.owner + "/"@ + parts.name);
}

/// A slash at either end of a URL's path makes no difference, and neither does
/// `.git` at the end of a path that does not end so already.
pub proof fn law_spelling_of_a_url_path(host: Option<Seq<char>>, path: Seq<char>)
    ensures
        parts_of(host, Some(path.push('/'))) == parts_of(host, Some(path)),
        parts_of(host, Some(seq!['/'] + path)) == parts_of(host, Some(path)),
        path.len() > 0 && path[0] != '/' && path.last() != '/' && bare_path(path) == path
            ==> parts_of(host, Some(path + ".git"@)) == parts_of(host, Some(path)),
{
    reveal_strlit(".git");
    assert((seq!['/'] + path).skip(1) =~= path);
    lemma_trailing_slash(path);
    if path.len() > 0 && path[0] != '/' && path.last() != '/' && bare_path(path) == path {
        let longer = path + ".git"@;
        assert(longer[0] == path[0]);
        assert(longer.last() == 't');
        assert(longer.subrange(longer.len() - 4, longer.len() as int) =~= ".git"@);
        assert(longer.take(longer.len() - 4) =~= path);
        assert(bare_path(longer) == path);
    }
}

proof fn lemma_trailing_slash(path: Seq<char>)
    ensures
        no_trailing_slash(no_leading_slash(path.push('/'))) == no_trailing_slash(
            no_leading_slash(path),
        ),
    decreases path.len(),
{
    let longer = path.push('/');
    if path.len() > 0 && path[0] == '/' {
        assert(longer.skip(1) =~= path.skip(1).push('/'));
        lemma_trailing_slash(path.skip(1));
    } else if path.len() > 0 {
        assert(longer[0] == path[0]);
        assert(longer.drop_last() =~= path);
    } else {
        assert(longer.skip(1) =~= path);
        assert(path =~= Seq::<char>::empty());
    }
}

/// Whether a text ends in the four characters `.git`.
pub open spec fn ends_in_dot_git(s: Seq<char>) -> bool {
    let n = s.len();
    n >= 4 && s[n - 4] == '.' && s[n - 3] == 'g' && s[n - 2] == 'i' && s[n - 1] == 't'
}

/// A text of slashes.
pub open spec fn slashes(n: nat) -> Seq<char> {
    Seq::new(n, |i: int| '/')
}

/// A URL's path that is an owner and a name, with a slash between them, names
/// exactly these on the URL's host, whatever slashes stand around it. The name may
/// be followed by `.git`, which is no part of it; a name that ends so itself is
/// only spelled that way.
pub proof fn law_path_names_owner_and_name(
    host: Seq<char>,
    owner: Seq<char>,
    name: Seq<char>,
    before: nat,
    after: nat,
)
    requires
        owner.len() > 0,
        !owner.contains('/'),
        name.len() > 0,
        !name.contains('/'),
    ensures
        !ends_in_dot_git(name) ==> parts_of(
            Some(host),
            Some(slashes(before) + owner + "/"@ + name + slashes(after)),
        ) == Ok::<RemotePartsView, PartsFault>(RemotePartsView { host, owner, name }),
        !ends_in_dot_git(name) ==> parts_of(Some(host), Some(owner + "/"@ + name)) == Ok::<
            RemotePartsView,
            PartsFault,
        >(RemotePartsView { host, owner, name }),
        parts_of(
            Some(host),
            Some(slashes(before) + owner + "/"@ + name + ".git"@ + slashes(after)),
        ) == Ok::<RemotePartsView, PartsFault>(RemotePartsView { host, owner, name }),
{
    reveal_strlit("/");
    reveal_strlit(".git");
    let two = owner + "/"@ + name;
    let four = two + ".git"@;
    assert(two[0] == owner[0] && owner.contains(owner[0]));
    assert(two.last() == name.last() && name.contains(name.last()));
    assert(two[owner.len() as int] == '/');
    assert forall|j: int| 0 <= j < owner.len() implies two[j] != '/' by {
        assert(two[j] == owner[j]);
    }
    lemma_is_first_index(two, |c: char| c == '/', owner.len() as int);
    assert(two.take(owner.len() as int) =~= owner);
    assert(two.skip(owner.len() as int + 1) =~= name);
    if !ends_in_dot_git(name) {
        let n = two.len() as int;
        if occurs_at(two, ".git"@, n - 4) {
            let tail = two.subrange(n - 4, n);
            assert(tail[0] == '.' && tail[1] == 'g' && tail[2] == 'i' && tail[3] == 't');
            assert(two[n - 4] == '.' && two[n - 3] == 'g' && two[n - 2] == 'i' && two[n - 1]
                == 't');
            assert(name.len() >= 4) by {
                if name.len() < 4 {
                    assert(two[owner.len() as int] == '/');
                }
            }
        }
        lemma_slashes_around(two, before, after);
        lemma_slashes_around(two, 0, 0);
        assert(slashes(0) + two + slashes(0) =~= two);
        assert(slashes(before) + two + slashes(after) =~= slashes(before) + owner + "/"@ + name
            + slashes(after));
    }
    assert(four[0] == two[0] && four.last() == 't');
    lemma_slashes_around(four, before, after);
    assert(slashes(before) + four + slashes(after) =~= slashes(before) + owner + "/"@ + name
        + ".git"@ + slashes(after));
    assert(four.subrange(four.len() - 4, four.len() as int) =~= ".git"@);
    assert(four.take(four.len() - 4) =~= two);
}

proof fn lemma_slashes_around(s: Seq<char>, before: nat, after: nat)
    requires
        s.len() > 0,
        s[0] != '/',
        s.last() != '/',
    ensures
        no_trailing_slash(no_leading_slash(slashes(before) + s + slashes(after))) == s,
    decreases before + after,
{
    let whole = slashes(before) + s + slashes(after);
    if before > 0 {
        assert(whole.skip(1) =~= slashes((before - 1) as nat) + s + slashes(after));
        lemma_slashes_around(s, (before - 1) as nat, after);
    } else {
        assert(whole =~= s + slashes(after));
        assert(whole[0] == s[0]);
        lemma_slashes_after(s, after);
    }
}

proof fn lemma_slashes_after(s: Seq<char>, after: nat)
    requires
        s.len() > 0,
        s.last() != '/',
    ensures
        no_trailing_slash(s + slashes(after)) == s,
    decreases after,
{
    let whole = s + slashes(after);
    if after > 0 {
        assert(whole.drop_last() =~= s + slashes((after - 1) as nat));
        lemma_slashes_after(s, (after - 1) as nat);
    } else {
        assert(whole =~= s);
    }
}

/// No slashes are nothing, and one is `/`.
pub proof fn lemma_no_slashes(s: Seq<char>)
    ensures
        slashes(0) + s == s,
        s + slashes(0) == s,
        slashes(1) == "/"@,
{
    reveal_strlit("/");
    assert(slashes(0) + s =~= s);
    assert(s + slashes(0) =~= s);
    assert(slashes(1) =~= "/"@);
}

/// A URL that names a remote spells it in its path: slashes, the owner, a slash,
/// the name, `.git` or nothing, and slashes.
pub proof fn law_remote_is_spelled_in_the_path(host: Option<Seq<char>>, path: Option<Seq<char>>)
    requires
        parts_of(host, path) is Ok,
    ensures
        ({
            let parts = parts_of(host, path)->Ok_0;
            &&& host == Some(parts.host)
            &&& parts.owner.len() > 0 && !parts.owner.contains('/')
            &&& parts.name.len() > 0 && !parts.name.contains('/')
            &&& exists|before: nat, after: nat|
                {
                    ||| path->0 == #[trigger] slashes(before) + parts.owner + "/"@ + parts.name
                        + #[trigger] slashes(after)
                    ||| path->0 == slashes(before) + parts.owner + "/"@ + parts.name + ".git"@
                        + slashes(after)
                }
        }),
{
    law_remote_has_two_segments(host, path);
    reveal_strlit(".git");
    reveal_strlit("/");
    let parts = parts_of(host, path)->Ok_0;
    let p = path->0;
    let m = no_leading_slash(p);
    let t = no_trailing_slash(m);
    let before = lemma_leading_cut(p);
    let after = lemma_trailing_cut(m);
    let two = parts.owner + "/"@ + parts.name;
    assert(p == slashes(before) + (t + slashes(after)));
    if occurs_at(t, ".git"@, t.len() - 4) {
        assert(t.take(t.len() - 4) == two);
        assert(t =~= t.take(t.len() - 4) + t.subrange(t.len() - 4, t.len() as int));
        assert(t == two + ".git"@);
        assert(p =~= slashes(before) + parts.owner + "/"@ + parts.name + ".git"@ + slashes(after));
    } else {
        assert(t == two);
        assert(p =~= slashes(before) + parts.owner + "/"@ + parts.name + slashes(after));
    }
}

proof fn lemma_leading_cut(s: Seq<char>) -> (n: nat)
    ensures
        s == slashes(n) + no_leading_slash(s),
    decreases s.len(),
{
    if s.len() > 0 && s[0] == '/' {
        let n = lemma_leading_cut(s.skip(1));
        let rest = no_leading_slash(s.skip(1));
        assert(s =~= seq!['/'] + s.skip(1));
        assert(s =~= slashes(n + 1) + rest);
        n + 1
    } else {
        assert(s =~= slashes(0) + s);
        0
    }
}

proof fn lemma_trailing_cut(s: Seq<char>) -> (n: nat)
    ensures
        s == no_trailing_slash(s) + slashes(n),
    decreases s.len(),
{
    if s.len() > 0 && s.last() == '/' {
        let n = lemma_trailing_cut(s.drop_last());
        let rest = no_trailing_slash(s.drop_last());
        assert(s =~= s.drop_last().push('/'));
        assert(s =~= rest + slashes(n + 1));
        n + 1
    } else {
        assert(s =~= s + slashes(0));
        0
    }
}

/// A URL without a host is refused as such, and one whose path is no text. A path
/// of slashes alone, or none, lacks the owner; one of a single segment lacks the
/// name; one of three or more segments is too deep.
pub proof fn law_refused_paths(
    host: Seq<char>,
    path: Option<Seq<char>>,
    owner: Seq<char>,
    name: Seq<char>,
    rest: Seq<char>,
    n: nat,
)
    requires
        owner.len() > 0,
        !owner.contains('/'),
        name.len() > 0,
        !name.contains('/'),
        rest.len() > 0,
        rest.last() != '/',
        !ends_in_dot_git(owner),
        !ends_in_dot_git(rest),
    ensures
        parts_of(None, path) == Err::<RemotePartsView, PartsFault>(PartsFault::NoHost),
        parts_of(Some(host), None) == Err::<RemotePartsView, PartsFault>(PartsFault::NotText),
        parts_of(Some(host), Some(slashes(n))) == Err::<RemotePartsView, PartsFault>(
            PartsFault::NoOwner,
        ),
        parts_of(Some(host), Some(slashes(n) + owner)) == Err::<RemotePartsView, PartsFault>(
            PartsFault::NoName,
        ),
        parts_of(Some(host), Some(owner + "/"@ + name + "/"@ + rest)) == Err::<
            RemotePartsView,
            PartsFault,
        >(PartsFault::TooDeep),
{
    reveal_strlit("/");
    reveal_strlit(".git");
    let p = |c: char| c == '/';
    lemma_only_slashes(n);
    assert(owner.contains(owner[0]) && owner.contains(owner.last()));
    lemma_slashes_around(owner, n, 0);
    assert(slashes(n) + owner + slashes(0) =~= slashes(n) + owner);
    let k = owner.len() as int;
    if occurs_at(owner, ".git"@, k - 4) {
        let tail = owner.subrange(k - 4, k);
        assert(tail[0] == '.' && tail[1] == 'g' && tail[2] == 'i' && tail[3] == 't');
        assert(ends_in_dot_git(owner));
    }
    assert forall|j: int| 0 <= j < owner.len() implies !p(#[trigger] owner[j]) by {
        assert(owner.contains(owner[j]));
    }
    lemma_is_first_index(owner, p, k);
    let deep = owner + "/"@ + name + "/"@ + rest;
    let m = deep.len() as int;
    assert(deep[0] == owner[0] && deep.last() == rest.last());
    lemma_slashes_around(deep, 0, 0);
    assert(slashes(0) + deep + slashes(0) =~= deep);
    if occurs_at(deep, ".git"@, m - 4) {
        let tail = deep.subrange(m - 4, m);
        assert(tail[0] == '.' && tail[1] == 'g' && tail[2] == 'i' && tail[3] == 't');
        assert(deep[m - 4] == '.' && deep[m - 3] == 'g' && deep[m - 2] == 'i' && deep[m - 1]
            == 't');
        assert(deep[m - rest.len() - 1] == '/');
        assert(ends_in_dot_git(rest));
    }
    assert(bare_path(deep) == deep);
    assert forall|j: int| 0 <= j < k implies !p(#[trigger] deep[j]) by {
        assert(deep[j] == owner[j]);
        assert(owner.contains(owner[j]));
    }
    assert(deep[k] == '/');
    lemma_is_first_index(deep, p, k);
    let after = deep.skip(k + 1);
    assert(after[name.len() as int] == '/');
}

proof fn lemma_only_slashes(n: nat)
    ensures
        no_leading_slash(slashes(n)).len() == 0,
    decreases n,
{
    if n > 0 {
        assert(slashes(n).skip(1) =~= slashes((n - 1) as nat));
        lemma_only_slashes((n - 1) as nat);
    }
}

/// The URL built for a repository starts with the scheme of its protocol, ends in
/// `.git`, and spells the host and a path that names the owner and the name.
pub proof fn law_built_url(host: Seq<char>, owner: Seq<char>, name: Seq<char>, protocol: Protocol)
    requires
        plain_host(host),
        host.len() <= 1024,
        plain_segment(owner),
        plain_segment(name),
        !owner.contains('%'),
        !name.contains('%'),
    ensures
        ({
            let url = url_for(host, owner, name, protocol);
            &&& occurs_at(url, "https://"@, 0) == (protocol == Protocol::Https)
            &&& occurs_at(url, "git@"@, 0) == (protocol == Protocol::Ssh)
            &&& ends_in_dot_git(url)
            &&& exists|path: Seq<char>| #[trigger]
                plain_url(url, host, path) && parts_of(Some(host), Some(path)) == Ok::<
                    RemotePartsView,
                    PartsFault,
                >(RemotePartsView { host, owner, name })
        }),
{
    reveal_strlit("/");
    reveal_strlit(".git");
    reveal_strlit("https://");
    reveal_strlit("git@");
    let url = url_for(host, owner, name, protocol);
    let parts = RemotePartsView { host, owner, name };
    let three = host + "/"@ + owner + "/"@ + name;
    assert(plain_segment(host));
    assert(three[0] == host[0] && three.last() == name.last());
    assert(trimmed(three) == three);
    lemma_shorthand(three, parts, host, protocol);
    assert(plain_url(url, host, path_for(owner, name, protocol)));
    let n = url.len() as int;
    assert(url.subrange(n - 4, n) =~= ".git"@);
    assert(url[n - 4] == ".git"@[0] && url[n - 3] == ".git"@[1] && url[n - 2] == ".git"@[2] && url[n
        - 1] == ".git"@[3]);
    match protocol {
        Protocol::Https => {
            assert(url.subrange(0, 8) =~= "https://"@);
            assert(url.subrange(0, 4)[0] == 'h');
            assert("git@"@[0] == 'g');
        },
        Protocol::Ssh => {
            assert(url.subrange(0, 4) =~= "git@"@);
            assert(url.subrange(0, 8)[0] == 'g');
            assert("https://"@[0] == 'h');
        },
    }
}

/// Whether a text is a URL that spells a repository: `https://host/owner/name`,
/// `ssh://git@host/owner/name` or `git@host:owner/name`, of a plain host and plain
/// segments.
pub open spec fn spells(text: Seq<char>, parts: RemotePartsView) -> bool {
    &&& plain_host(parts.host) && parts.host.len() <= 1020
    &&& plain_segment(parts.owner) && !parts.owner.contains('%') && parts.owner[0] != '~'
    &&& plain_segment(parts.name) && !parts.name.contains('%') && !ends_in_dot_git(parts.name)
    &&& {
        ||| text == "https://"@ + parts.host + "/"@ + parts.owner + "/"@ + parts.name
        ||| text == "ssh://git@"@ + parts.host + "/"@ + parts.owner + "/"@ + parts.name
        ||| text == "git@"@ + parts.host + ":"@ + parts.owner + "/"@ + parts.name
    }
}

#[verifier::rlimit(40)]
proof fn lemma_spells(text: Seq<char>, parts: RemotePartsView)
    requires
        spells(text, parts),
    ensures
        exists|path: Seq<char>| #[trigger]
            plain_url(text, parts.host, path) && parts_of(Some(parts.host), Some(path)) == Ok::<
                RemotePartsView,
                PartsFault,
            >(parts),
        text.contains(':'),
        trimmed(text) == text,
{
    reveal_strlit("/");
    reveal_strlit("/~");
    reveal_strlit("https://");
    reveal_strlit("ssh://git@");
    reveal_strlit("git@");
    reveal_strlit(":");
    let RemotePartsView { host, owner, name } = parts;
    let two = owner + "/"@ + name;
    let path = "/"@ + two;
    law_path_names_owner_and_name(host, owner, name, 0, 0);
    law_path_names_owner_and_name(host, owner, name, 1, 0);
    lemma_no_slashes("/"@ + owner + "/"@ + name);
    assert("/"@ + owner + "/"@ + name =~= path);
    assert forall|i: int| 0 <= i < two.len() implies !white_space(#[trigger] two[i]) && two[i]
        != ':' && two[i] != '%' by {
        if i < owner.len() {
            assert(two[i] == owner[i]);
            assert(owner.contains(owner[i]));
        } else if i > owner.len() {
            let j = i - owner.len() - 1;
            assert(two[i] == name[j]);
            assert(name.contains(name[j]));
        }
    }
    assert forall|i: int| 0 <= i < path.len() implies !white_space(#[trigger] path[i]) && path[i]
        != '%' by {
        if i > 0 {
            assert(path[i] == two[i - 1]);
        }
    }
    assert(plain_path(path));
    assert(text.last() == name.last());
    if text == "https://"@ + host + "/"@ + owner + "/"@ + name {
        assert(text =~= "https://"@ + host + path);
        assert(text[5] == ':');
        assert(plain_url(text, host, path));
    } else if text == "ssh://git@"@ + host + "/"@ + owner + "/"@ + name {
        assert(text =~= "ssh://git@"@ + host + path);
        assert(text[3] == ':');
        if occurs_at(path, "/~"@, 0) {
            assert(path.subrange(0, 2)[1] == '~');
            assert(path[1] == owner[0]);
        }
        assert(plain_url(text, host, path));
    } else {
        assert(text =~= "git@"@ + host + ":"@ + two);
        assert(text[4 + host.len() as int] == ':');
        assert(two[0] == owner[0]);
        assert(!two.contains(':'));
        assert(plain_url(text, host, two));
    }
}

/// What is said of a URL that names no remote names the URL and what is wrong with it.
pub proof fn law_messages_name_the_input(e: CloneInputError)
    ensures
        e matches CloneInputError::Unparsed { url, cause } ==> has(
            e.text(),
            url@ + "`: "@ + cause@,
        ),
        e matches CloneInputError::Parts { url, error } ==> has(
            e.text(),
            url@ + "`: "@ + error.text(),
        ),
{
    match e {
        CloneInputError::Unparsed { url, cause } => {
            lemma_told_in_order("parsing clone URL `"@, url@, "`: "@, cause@);
        },
        CloneInputError::Parts { url, error } => {
            let head = "extracting host/owner/name from `"@;
            lemma_told_in_order(head, url@, "`: "@, error.text());
        },
        _ => {},
    }
}

/// What is said of a path that is too deep names it, and each other fault has a text of
/// its own.
pub proof fn law_faults_are_told_apart(a: PartsError, b: PartsError)
    ensures
        a.fault == PartsFault::TooDeep ==> has(a.text(), a.path@),
        a.fault != PartsFault::TooDeep && b.fault != PartsFault::TooDeep ==> (a.text() == b.text())
            == (a.fault == b.fault),
{
    reveal_strlit("remote URL has no host");
    reveal_strlit("remote URL path is not UTF-8");
    reveal_strlit("remote URL has no owner segment");
    reveal_strlit("remote URL has no name segment");
    assert("remote URL has no host"@.len() == 22 && "remote URL path is not UTF-8"@.len() == 28
        && "remote URL has no owner segment"@.len() == 31
        && "remote URL has no name segment"@.len() == 30);
    if a.fault == PartsFault::TooDeep {
        lemma_stands_between("remote URL path `"@, a.path@, "` has more than two segments"@);
    }
}

/// A URL that does not parse is refused with the parser's reason, and one that names no
/// remote with what is wrong with it. One whose path is an owner and a name, with
/// `.git` behind it or not, is accepted, and used as it is.
pub proof fn law_outcome_of_a_url(
    url: Seq<char>,
    parsed: Result<(Option<Seq<char>>, Option<Seq<char>>), Seq<char>>,
    r: Result<(RemoteParts, String), CloneInputError>,
    parts: RemotePartsView,
)
    requires
        clone_outcome(url, parsed, r),
        parts.owner.len() > 0,
        !parts.owner.contains('/'),
        parts.name.len() > 0,
        !parts.name.contains('/'),
    ensures
        parsed is Err ==> r is Err && r->Err_0 is Unparsed && r->Err_0->Unparsed_url@ == url
            && r->Err_0->cause@ == parsed->Err_0,
        parsed matches Ok((None, _)) ==> r is Err && r->Err_0 is Parts && r->Err_0->error.fault
            == PartsFault::NoHost,
        parsed is Ok && r is Err ==> r->Err_0 is Parts && r->Err_0->Parts_url@ == url,
        parsed == Ok::<(Option<Seq<char>>, Option<Seq<char>>), Seq<char>>(
            (Some(parts.host), Some("/"@ + parts.owner + "/"@ + parts.name + ".git"@)),
        ) ==> (r matches Ok((p, u)) && p@ == parts && u@ == url),
        !ends_in_dot_git(parts.name) && parsed == Ok::<
            (Option<Seq<char>>, Option<Seq<char>>),
            Seq<char>,
        >((Some(parts.host), Some(parts.owner + "/"@ + parts.name))) ==> (r matches Ok((p, u))
            && p@ == parts && u@ == url),
{
    reveal_strlit("/");
    let RemotePartsView { host, owner, name } = parts;
    law_path_names_owner_and_name(host, owner, name, 1, 0);
    lemma_no_slashes("/"@ + owner + "/"@ + name + ".git"@);
}

} // verus!
