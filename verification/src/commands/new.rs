//! `shoka new`: a repository is created on GitHub, cloned and scaffolded.
use vstd::prelude::*;
use vstd::string::*;

use crate::seqs::{first_index, lemma_is_first_index};
use crate::text::{
    chars_of, clone_opt, has, has_white_space, is_white_space, lemma_stands_at_an_end,
    lemma_stands_between, lemma_trimmed_keeps, occurs_at, opt_str, opt_text, string_of, texts, trim,
    trimmed, white_space,
};

verus! {

/// What is to be created.
#[derive(Debug, PartialEq, Eq)]
pub enum Spec {
    /// The owner was named.
    Full { owner: String, name: String },
    /// Only the name was.
    NameOnly { name: String },
}

/// The texts of a [`Spec`].
#[verifier::ext_equal]
pub struct SpecView {
    pub owner: Option<Seq<char>>,
    pub name: Seq<char>,
}

impl View for Spec {
    type V = SpecView;

    open spec fn view(&self) -> SpecView {
        match self {
            Spec::Full { owner, name } => SpecView { owner: Some(owner@), name: name@ },
            Spec::NameOnly { name } => SpecView { owner: None, name: name@ },
        }
    }
}

/// What is wrong with an owner or a name.
#[derive(Debug, Clone, Copy, PartialEq, Eq, Structural)]
pub enum SegmentFault {
    Empty,
    BadCharacter,
}

/// What is wrong with an owner or a name: it is empty, or holds a slash or
/// white space.
pub open spec fn segment_fault(seg: Seq<char>) -> Option<SegmentFault> {
    if seg.len() == 0 {
        Some(SegmentFault::Empty)
    } else if seg.contains('/') || has_white_space(seg) {
        Some(SegmentFault::BadCharacter)
    } else {
        None
    }
}

/// An owner or a name that was refused.
#[derive(Debug)]
pub struct SegmentError {
    pub fault: SegmentFault,
    /// `owner` or `name`.
    pub what: String,
    pub segment: String,
}

impl SegmentError {
    /// The text of the message.
    pub open spec fn text(self) -> Seq<char> {
        match self.fault {
            SegmentFault::Empty => self.what@ + " must not be empty"@,
            SegmentFault::BadCharacter => self.what@ + " `"@ + self.segment@
                + "` has an invalid character (no slashes or spaces)"@,
        }
    }

    /// The error is why a segment is refused.
    pub open spec fn refuses(self, segment: Seq<char>, what: Seq<char>) -> bool {
        &&& segment_fault(segment) == Some(self.fault)
        &&& self.what@ == what
        &&& self.segment@ == segment
    }

    /// The message shown to the user.
    pub fn message(&self) -> (r: String)
        ensures
            r@ == self.text(),
    {
        match self.fault {
            SegmentFault::Empty => self.what.clone().concat(" must not be empty"),
            SegmentFault::BadCharacter => self.what.clone().concat(" `").concat(
                self.segment.as_str(),
            ).concat("` has an invalid character (no slashes or spaces)"),
        }
    }
}

/// Whether an owner or a name can be used.
pub fn validate_segment(seg: &str, what: &str) -> (r: Result<(), SegmentError>)
    ensures
        match r {
            Ok(_) => segment_fault(seg@) is None,
            Err(e) => e.refuses(seg@, what@),
        },
{
    let v = chars_of(seg);
    if v.len() == 0 {
        return Err(
            SegmentError {
                fault: SegmentFault::Empty,
                what: what.to_owned(),
                segment: seg.to_owned(),
            },
        );
    }
    let mut i: usize = 0;
    while i < v.len()
        invariant
            v@ == seg@,
            v@.len() > 0,
            i <= v@.len(),
            forall|k: int| 0 <= k < i ==> v@[k] != '/' && !white_space(#[trigger] v@[k]),
        decreases v@.len() - i,
    {
        if v[i] == '/' || is_white_space(v[i]) {
            assert(seg@[i as int] == v@[i as int]);
            return Err(
                SegmentError {
                    fault: SegmentFault::BadCharacter,
                    what: what.to_owned(),
                    segment: seg.to_owned(),
                },
            );
        }
        i = i + 1;
    }
    Ok(())
}

/// The owner and the name that a text gives, before they are looked at: split
/// at the first slash, without white space around them.
pub open spec fn spec_texts(s: Seq<char>) -> SpecView {
    let slash = first_index(s, |c: char| c == '/');
    if slash < s.len() {
        SpecView {
            owner: Some(trimmed(s.take(slash))),
            name: trimmed(s.skip(slash + 1)),
        }
    } else {
        SpecView { owner: None, name: trimmed(s) }
    }
}

/// What is to be created for `owner/name` or a bare name. Refused when either
/// is empty or holds a slash or white space, the owner first.
pub fn parse_spec(spec: &str) -> (r: Result<Spec, SegmentError>)
    ensures
        ({
            let t = spec_texts(spec@);
            if t.owner is Some && segment_fault(t.owner->0) is Some {
                r matches Err(e) && e.refuses(t.owner->0, "owner"@)
            } else if segment_fault(t.name) is Some {
                r matches Err(e) && e.refuses(t.name, "name"@)
            } else {
                r matches Ok(s) && s@ == t
            }
        }),
{
    let v = chars_of(spec);
    let ghost p = |c: char| c == '/';
    let mut i: usize = 0;
    while i < v.len() && v[i] != '/'
        invariant
            v@ == spec@,
            p == (|c: char| c == '/'),
            i <= v@.len(),
            forall|k: int| 0 <= k < i ==> !p(#[trigger] v@[k]),
        decreases v@.len() - i,
    {
        i = i + 1;
    }
    proof {
        lemma_is_first_index(v@, p, i as int);
    }
    if i < v.len() {
        let before = string_of(&v, 0, i);
        let after = string_of(&v, i + 1, v.len());
        assert(before@ =~= spec@.take(i as int));
        assert(after@ =~= spec@.skip(i + 1));
        let owner = trim(before.as_str());
        let name = trim(after.as_str());
        match validate_segment(owner.as_str(), "owner") {
            Ok(_) => {},
            Err(e) => {
                return Err(e);
            },
        }
        match validate_segment(name.as_str(), "name") {
            Ok(_) => {},
            Err(e) => {
                return Err(e);
            },
        }
        Ok(Spec::Full { owner, name })
    } else {
        let name = trim(spec);
        match validate_segment(name.as_str(), "name") {
            Ok(_) => Ok(Spec::NameOnly { name }),
            Err(e) => Err(e),
        }
    }
}

/// How the owner and the name of a new repository come about.
#[derive(Debug)]
pub enum NameStep {
    /// Both are given.
    Known { owner: String, name: String },
    /// The name is given; the owner is the default one.
    UnderDefault { name: String },
    /// The owner is the default one; the name is asked for.
    AskName,
}

/// Where the owner and the name of a new repository come from: what the text
/// on the command line leaves open is the default owner, and without a text the
/// name is asked for.
pub fn resolve_owner_name(spec: Option<&str>) -> (r: Result<NameStep, SegmentError>)
    ensures
        match spec {
            None => r == Ok::<NameStep, SegmentError>(NameStep::AskName),
            Some(s) => {
                let t = spec_texts(s@);
                if t.owner is Some && segment_fault(t.owner->0) is Some {
                    r matches Err(e) && e.refuses(t.owner->0, "owner"@)
                } else if segment_fault(t.name) is Some {
                    r matches Err(e) && e.refuses(t.name, "name"@)
                } else if t.owner is Some {
                    r matches Ok(NameStep::Known { owner, name }) && owner@ == t.owner->0 && name@
                        == t.name
                } else {
                    r matches Ok(NameStep::UnderDefault { name }) && name@ == t.name
                }
            },
        },
{
    match spec {
        None => Ok(NameStep::AskName),
        Some(s) => match parse_spec(s) {
            Ok(Spec::Full { owner, name }) => Ok(NameStep::Known { owner, name }),
            Ok(Spec::NameOnly { name }) => Ok(NameStep::UnderDefault { name }),
            Err(e) => Err(e),
        },
    }
}

/// The hint under the question for a name.
pub fn name_prompt_help(owner: &str) -> (r: String)
    ensures
        r@ == "created under "@ + owner@ + "/"@,
{
    "created under ".to_owned().concat(owner).concat("/")
}

/// The name that was answered, without white space around it.
pub fn answered_name(answer: &str) -> (r: Result<String, SegmentError>)
    ensures
        match r {
            Ok(name) => name@ == trimmed(answer@) && segment_fault(trimmed(answer@)) is None,
            Err(e) => e.refuses(trimmed(answer@), "name"@),
        },
{
    let name = trim(answer);
    match validate_segment(name.as_str(), "name") {
        Ok(_) => Ok(name),
        Err(e) => Err(e),
    }
}

/// What could be told of the user's GitHub login.
#[derive(Debug)]
pub enum LoginLookup {
    /// There is no token.
    NoToken,
    /// No client could be made, for this reason.
    NoClient(String),
    /// The login could not be looked up, for this reason.
    Failed(String),
    Login(String),
}

/// Why there is no owner.
#[derive(Debug)]
pub enum OwnerError {
    NoClient(String),
    Lookup(String),
    Unknown,
}

impl OwnerError {
    /// The text of the message.
    pub open spec fn text(self) -> Seq<char> {
        match self {
            OwnerError::NoClient(e) =>
                "building a GitHub client to resolve the default owner: "@ + e@,
            OwnerError::Lookup(e) =>
                "looking up your GitHub login to default the owner — pass `owner/name` explicitly to skip this lookup: "@
                + e@,
            OwnerError::Unknown =>
                "can't determine the owner — pass `owner/name` explicitly or set [global.ui].own_owners in config"@,
        }
    }

    /// The message shown to the user.
    pub fn message(&self) -> (r: String)
        ensures
            r@ == self.text(),
    {
        match self {
            OwnerError::NoClient(e) => "building a GitHub client to resolve the default owner: ".to_owned().concat(
                e.as_str(),
            ),
            OwnerError::Lookup(e) => "looking up your GitHub login to default the owner — pass `owner/name` explicitly to skip this lookup: ".to_owned().concat(
                e.as_str(),
            ),
            OwnerError::Unknown => "can't determine the owner — pass `owner/name` explicitly or set [global.ui].own_owners in config".to_owned(),
        }
    }
}

/// The owner when none was named: the first of the user's owners, without
/// asking GitHub; else their login.
pub fn default_owner(own_owners: &[String], lookup: Option<LoginLookup>) -> (r: Result<
    String,
    OwnerError,
>)
    ensures
        if own_owners@.len() > 0 {
            r matches Ok(o) && o@ == own_owners@[0]@
        } else {
            match lookup {
                Some(LoginLookup::Login(login)) => r matches Ok(o) && o@ == login@,
                Some(LoginLookup::NoClient(e)) => r matches Err(OwnerError::NoClient(c)) && c@
                    == e@,
                Some(LoginLookup::Failed(e)) => r matches Err(OwnerError::Lookup(c)) && c@ == e@,
                _ => r matches Err(OwnerError::Unknown),
            }
        },
{
    if own_owners.len() > 0 {
        return Ok(own_owners[0].clone());
    }
    match lookup {
        Some(LoginLookup::Login(login)) => Ok(login),
        Some(LoginLookup::NoClient(e)) => Err(OwnerError::NoClient(e)),
        Some(LoginLookup::Failed(e)) => Err(OwnerError::Lookup(e)),
        _ => Err(OwnerError::Unknown),
    }
}

/// The arguments that `gh` creates a repository by. It gets a first commit, so
/// that there is something to clone.
pub open spec fn create_args(
    slug: Seq<char>,
    private: bool,
    description: Option<Seq<char>>,
) -> Seq<Seq<char>> {
    seq![
        "repo"@,
        "create"@,
        slug,
        if private {
            "--private"@
        } else {
            "--public"@
        },
        "--add-readme"@,
    ] + (match description {
        Some(d) => seq!["--description"@, d],
        None => Seq::empty(),
    })
}

/// The arguments that `gh` creates a repository by.
pub fn gh_repo_create(slug: &str, private: bool, description: Option<&str>) -> (r: Vec<String>)
    ensures
        texts(r@) == create_args(slug@, private, opt_str(description)),
{
    let visibility = if private {
        "--private"
    } else {
        "--public"
    };
    let mut args = vec![
        "repo".to_owned(),
        "create".to_owned(),
        slug.to_owned(),
        visibility.to_owned(),
        "--add-readme".to_owned(),
    ];
    if let Some(d) = description {
        args.push("--description".to_owned());
        args.push(d.to_owned());
    }
    assert(texts(args@) =~= create_args(slug@, private, opt_str(description)));
    args
}

/// The preset that a new repository is scaffolded with: the one given, else
/// the configured one; none when scaffolding is off.
pub fn resolve_preset(no_kata: bool, given: Option<String>, configured: &Option<String>) -> (r:
    Option<String>)
    ensures
        opt_text(r) == (if no_kata {
            None
        } else if given is Some {
            opt_text(given)
        } else {
            opt_text(*configured)
        }),
{
    if no_kata {
        return None;
    }
    match given {
        Some(p) => Some(p),
        None => clone_opt(configured),
    }
}

/// The arguments that `kata` scaffolds by.
pub fn kata_init(preset: &str, dest: &str) -> (r: Vec<String>)
    ensures
        texts(r@) == seq!["init"@, preset@, "--at"@, dest@],
{
    let args = vec![
        "init".to_owned(),
        preset.to_owned(),
        "--at".to_owned(),
        dest.to_owned(),
    ];
    assert(texts(args@) =~= seq!["init"@, preset@, "--at"@, dest@]);
    args
}

/// What is said when scaffolding failed: the repository is there, and the
/// command to scaffold it by hand.
pub fn kata_failed_line(cause: &str, preset: &str, dest: &str) -> (r: String)
    ensures
        r@ == "kata init failed ("@ + cause@
            + ") — repo is created and cloned; re-run `kata init "@ + preset@ + " --at "@ + dest@
            + "` by hand"@,
{
    "kata init failed (".to_owned().concat(cause).concat(
        ") — repo is created and cloned; re-run `kata init ",
    ).concat(preset).concat(" --at ").concat(dest).concat("` by hand")
}

/// Nothing with two slashes is accepted: a host cannot be named.
pub proof fn law_no_host_in_a_spec(s: Seq<char>)
    requires
        ({
            let slash = first_index(s, |c: char| c == '/');
            slash < s.len() && s.skip(slash + 1).contains('/')
        }),
    ensures
        segment_fault(spec_texts(s).name) is Some,
{
    let slash = first_index(s, |c: char| c == '/');
    lemma_trimmed_keeps(s.skip(slash + 1), '/');
}

/// An owner or a name can be used exactly when it is not empty and none of its
/// characters is a slash or white space.
pub proof fn law_usable_segments(seg: Seq<char>)
    ensures
        segment_fault(seg) is None == (seg.len() > 0 && forall|i: int|
            0 <= i < seg.len() ==> #[trigger] seg[i] != '/' && !white_space(seg[i])),
        (segment_fault(seg) == Some(SegmentFault::Empty)) == (seg.len() == 0),
{
    if segment_fault(seg) is None {
        assert forall|i: int| 0 <= i < seg.len() implies #[trigger] seg[i] != '/' && !white_space(
            seg[i],
        ) by {
            assert(seg.contains(seg[i]));
        }
    }
}

/// What stands before the first slash is the owner and what stands behind it the
/// name; without a slash all of it is the name and no owner is given. White space
/// around either does not count.
pub proof fn law_owner_and_name(owner: Seq<char>, rest: Seq<char>)
    requires
        !owner.contains('/'),
    ensures
        spec_texts(owner + "/"@ + rest).owner == Some(trimmed(owner)),
        spec_texts(owner + "/"@ + rest).name == trimmed(rest),
        spec_texts(owner).owner is None,
        spec_texts(owner).name == trimmed(owner),
{
    reveal_strlit("/");
    let whole = owner + "/"@ + rest;
    let p = |c: char| c == '/';
    let n = owner.len() as int;
    assert forall|j: int| 0 <= j < n implies !p(#[trigger] whole[j]) by {
        assert(whole[j] == owner[j]);
        assert(owner.contains(owner[j]));
    }
    assert(whole[n] == '/');
    lemma_is_first_index(whole, p, n);
    assert(whole.take(n) =~= owner);
    assert(whole.skip(n + 1) =~= rest);
    assert forall|j: int| 0 <= j < n implies !p(#[trigger] owner[j]) by {
        assert(owner.contains(owner[j]));
    }
    lemma_is_first_index(owner, p, n);
}

/// The repository that is created is the one of the slug, private or public as was
/// asked and not both, with a description exactly where one was given.
pub proof fn law_created_repository(slug: Seq<char>, private: bool, description: Option<Seq<char>>)
    ensures
        ({
            let args = create_args(slug, private, description);
            &&& args[2] == slug
            &&& (args[3] == "--private"@) == private
            &&& (args[3] == "--public"@) == !private
            &&& description is None ==> args.len() == 5
            &&& description is Some ==> {
                &&& args.len() == 7
                &&& args[5] == "--description"@
                &&& args[6] == description->0
            }
        }),
{
    reveal_strlit("--private");
    reveal_strlit("--public");
    assert("--private"@.len() != "--public"@.len());
}

/// What is said where there is no owner names the cause.
pub proof fn law_messages_name_the_cause(e: OwnerError)
    ensures
        e matches OwnerError::NoClient(c) ==> has(e.text(), c@),
        e matches OwnerError::Lookup(c) ==> has(e.text(), c@),
{
    match e {
        OwnerError::NoClient(c) => {
            let head = "building a GitHub client to resolve the default owner: "@;
            lemma_stands_at_an_end(head, c@, Seq::empty());
        },
        OwnerError::Lookup(c) => {
            lemma_stands_at_an_end(
                "looking up your GitHub login to default the owner — pass `owner/name` explicitly to skip this lookup: "@,
                c@,
                Seq::empty(),
            );
        },
        _ => {},
    }
}

/// What is said of a refused owner or name tells which of the two it is, and, unless
/// it is empty, what it is.
pub proof fn law_refusal_names_the_segment(e: SegmentError)
    ensures
        occurs_at(e.text(), e.what@, 0),
        e.fault == SegmentFault::BadCharacter ==> has(e.text(), e.segment@),
{
    let none = Seq::<char>::empty();
    match e.fault {
        SegmentFault::Empty => {
            let before = none;
            let after = " must not be empty"@;
            lemma_stands_between(before, e.what@, after);
            assert(e.text() =~= before + e.what@ + after);
        },
        SegmentFault::BadCharacter => {
            let tail = "` has an invalid character (no slashes or spaces)"@;
            let rest = " `"@ + e.segment@ + tail;
            let before = none;
            let after = rest;
            lemma_stands_between(before, e.what@, after);
            assert(e.text() =~= before + e.what@ + after);
            let head = e.what@ + " `"@;
            let before = head;
            let after = tail;
            lemma_stands_between(before, e.segment@, after);
            assert(e.text() =~= before + e.segment@ + after);
        },
    }
}

} // verus!
