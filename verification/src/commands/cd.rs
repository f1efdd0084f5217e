//! `shoka cd`: from the shelf to a path.
//!
//! The path is not entered, which a child process cannot do for its parent. It
//! goes to the file that the shell wrapper names, or else to standard output.
use vstd::prelude::*;
use vstd::string::*;
use vstd::utf8::encode_utf8;

use crate::config::home_dir;
use crate::fspath::{
    components, from_root, is_rooted, is_windows, law_components, law_written_from, path_key,
    plain_part, plain_parts, text_from, windows, written_from,
};
use crate::seqs::{
    lemma_filter_selects, lemma_selection, lemma_selects_nothing, selects, selects_at, views,
};
use crate::state::{Repo, RepoView, Shelf, ShelfView};
use crate::text::{
    all_ascii, ascii_folded, ascii_lower, chars_of, contains, decimal, decimal_of, has, joined,
    lemma_stands_at_an_end, lemma_stands_between, lowercase, occurs_at, opt_str, opt_text,
    same_letter, stands_at, texts, to_lowercase,
};

verus! {

/// The environment variable that names the wrapper's file.
pub const CD_OUT_ENV: &'static str = "SHOKA_CD_OUT";

/// Why no repository was selected, or its path is of no use.
#[derive(Debug)]
pub enum SelectError {
    /// There is nothing on the shelf; holds what to say then.
    EmptyShelf(&'static str),
    /// No row carries the wanted tags; holds the number of rows.
    NoTagMatch(usize),
    /// No row matches the hint.
    NoHintMatch(String),
    /// The repository's path is not a directory.
    Missing { slug: String, path: String },
}

impl SelectError {
    /// The text of the message.
    pub open spec fn text(self) -> Seq<char> {
        match self {
            SelectError::EmptyShelf(what) => what@,
            SelectError::NoTagMatch(n) => "no repos matched the tag filter ("@ + decimal(n as nat)
                + " on the shelf total)"@,
            SelectError::NoHintMatch(hint) => "no repos on the shelf match `"@ + hint@
                + "` — try `shoka list` to see what's there"@,
            SelectError::Missing { slug, path } => slug@ + " resolves to "@ + path@
                + ", but that path doesn't exist — the repo was probably moved or deleted; try `shoka prune` to clean up the shelf"@,
        }
    }

    /// The message shown to the user.
    pub fn message(&self) -> (r: String)
        ensures
            r@ == self.text(),
    {
        match self {
            SelectError::EmptyShelf(what) => (*what).to_owned(),
            SelectError::NoTagMatch(n) => "no repos matched the tag filter (".to_owned().concat(
                decimal_of(*n as u64).as_str(),
            ).concat(" on the shelf total)"),
            SelectError::NoHintMatch(hint) => "no repos on the shelf match `".to_owned().concat(
                hint.as_str(),
            ).concat("` — try `shoka list` to see what's there"),
            SelectError::Missing { slug, path } => slug.clone().concat(" resolves to ").concat(
                path.as_str(),
            ).concat(
                ", but that path doesn't exist — the repo was probably moved or deleted; try `shoka prune` to clean up the shelf",
            ),
        }
    }
}

/// A repository, or the ones to choose it from.
#[derive(Debug)]
pub enum Choice<'a> {
    /// The only one there is.
    One(&'a Repo),
    /// The user is to choose.
    Ask { prompt: String, among: Vec<&'a Repo> },
}

/// Whether a hint stands in a slug, both in lower case.
pub open spec fn hint_matches(slug: Seq<char>, hint: Seq<char>) -> bool {
    has(lowercase(slug), lowercase(hint))
}

/// The repositories whose slug holds the hint, in order.
pub open spec fn hinted(rows: Seq<RepoView>, hint: Seq<char>) -> Seq<RepoView> {
    rows.filter(|r: RepoView| hint_matches(r.slug(), hint))
}

/// Whether `r` is the choice among the repositories that a hint left: none is
/// an error, one is it, more are asked about.
pub open spec fn chosen_among(
    matches: Seq<RepoView>,
    hint: Seq<char>,
    r: Result<Choice, SelectError>,
) -> bool {
    if matches.len() == 0 {
        r matches Err(SelectError::NoHintMatch(h)) && h@ == hint
    } else if matches.len() == 1 {
        r matches Ok(Choice::One(repo)) && repo@ == matches[0]
    } else {
        r matches Ok(Choice::Ask { prompt, among }) && prompt@ == "multiple matches for `"@ + hint
            + "`:"@ && views(among@) == matches
    }
}

/// The choice among the repositories that a hint left.
pub fn choose_among<'a>(matches: Vec<&'a Repo>, hint: &str) -> (r: Result<
    Choice<'a>,
    SelectError,
>)
    ensures
        chosen_among(views(matches@), hint@, r),
{
    if matches.len() == 0 {
        return Err(SelectError::NoHintMatch(hint.to_owned()));
    }
    if matches.len() == 1 {
        let only = matches[0];
        assert(views(matches@)[0] == only@);
        return Ok(Choice::One(only));
    }
    Ok(
        Choice::Ask {
            prompt: "multiple matches for `".to_owned().concat(hint).concat("`:"),
            among: matches,
        },
    )
}

/// The repository that a hint names, by a part of its slug in whatever case;
/// more than one are asked about, and none is an error.
pub fn choose_by_hint<'a>(candidates: &[&'a Repo], hint: &str) -> (r: Result<
    Choice<'a>,
    SelectError,
>)
    ensures
        chosen_among(hinted(views(candidates@), hint@), hint@, r),
        forall|i: int|
            0 <= i < candidates@.len() && all_ascii(hint@) && all_ascii(
                (#[trigger] candidates@[i])@.slug(),
            ) ==> offered(r).contains(candidates@[i]@) == stands_in(
                candidates@[i]@.slug(),
                hint@,
            ),
        all_ascii(hint@) && ascii_slugs(views(candidates@)) ==> selects(
            views(candidates@),
            named_by(hint@),
            offered(r),
        ),
{
    let hint_lc = to_lowercase(hint);
    let ghost p = |r: RepoView| hint_matches(r.slug(), hint@);
    let ghost all = views(candidates@);
    let mut matches: Vec<&'a Repo> = Vec::new();
    let mut i: usize = 0;
    reveal(Seq::filter);
    assert(views(matches@) =~= all.take(0).filter(p));
    while i < candidates.len()
        invariant
            p == (|r: RepoView| hint_matches(r.slug(), hint@)),
            all == views(candidates@),
            hint_lc@ == lowercase(hint@),
            all_ascii(hint@) ==> lowercase(hint@) == ascii_folded(hint@),
            forall|k: int|
                0 <= k < i && all_ascii((#[trigger] all[k]).slug()) ==> lowercase(all[k].slug())
                    == ascii_folded(all[k].slug()),
            i <= candidates@.len(),
            views(matches@) == all.take(i as int).filter(p),
        decreases candidates@.len() - i,
    {
        reveal(Seq::filter);
        let repo = candidates[i];
        assert(all.take(i + 1).drop_last() =~= all.take(i as int));
        assert(all.take(i + 1).last() == repo@);
        let slug = to_lowercase(repo.slug().as_str());
        if contains(slug.as_str(), hint_lc.as_str()) {
            let ghost was = views(matches@);
            matches.push(repo);
            assert(views(matches@) =~= was.push(repo@));
        }
        i = i + 1;
    }
    assert(all.take(i as int) =~= all);
    proof {
        let out = hinted(all, hint@);
        let at = lemma_filter_selects(all, p);
        assert forall|k: int|
            0 <= k < all.len() && all_ascii(hint@) && all_ascii((#[trigger] all[k]).slug()) implies p(
            all[k],
        ) == stands_in(all[k].slug(), hint@) by {
            lemma_stands_in(all[k].slug(), hint@);
        }
        assert forall|k: int|
            0 <= k < candidates@.len() && all_ascii(hint@) && all_ascii(
                (#[trigger] candidates@[k])@.slug(),
            ) implies out.contains(candidates@[k]@) == stands_in(
            candidates@[k]@.slug(),
            hint@,
        ) by {
            assert(all[k] == candidates@[k]@);
            if p(all[k]) {
                let j = choose|j: int| 0 <= j < at.len() && at[j] == k;
                assert(out[j] == all[at[j]]);
            }
            if out.contains(all[k]) {
                let j = choose|j: int| 0 <= j < out.len() && out[j] == all[k];
                assert(p(all[at[j]]));
            }
        }
        if all_ascii(hint@) && ascii_slugs(all) {
            assert(selects_at(all, named_by(hint@), out, at));
        }
    }
    let r = choose_among(matches, hint);
    proof {
        law_choice(hinted(all, hint@), hint@, r);
    }
    r
}

/// A hint stands somewhere in a slug, whatever the case of the letters in either.
pub open spec fn stands_in(slug: Seq<char>, hint: Seq<char>) -> bool {
    exists|i: int| #[trigger] stands_in_at(slug, hint, i)
}

/// A hint stands in a slug from this position on, whatever the case of the letters
/// in either.
pub open spec fn stands_in_at(slug: Seq<char>, hint: Seq<char>, i: int) -> bool {
    &&& 0 <= i && i + hint.len() <= slug.len()
    &&& forall|k: int| 0 <= k < hint.len() ==> #[trigger] same_letter(slug[i + k], hint[k])
}

/// Whether the hint stands in a row's slug, whatever the case of the letters.
pub open spec fn named_by(hint: Seq<char>) -> spec_fn(RepoView) -> bool {
    |r: RepoView| stands_in(r.slug(), hint)
}

/// Every row's slug is in ASCII.
pub open spec fn ascii_slugs(rows: Seq<RepoView>) -> bool {
    forall|i: int| 0 <= i < rows.len() ==> all_ascii((#[trigger] rows[i]).slug())
}

/// The rows that a choice leaves to the user: the one, those asked about, or none.
pub open spec fn offered(r: Result<Choice, SelectError>) -> Seq<RepoView> {
    match r {
        Ok(Choice::One(repo)) => seq![repo@],
        Ok(Choice::Ask { prompt: _, among }) => views(among@),
        Err(_) => Seq::empty(),
    }
}

proof fn lemma_stands_in(slug: Seq<char>, hint: Seq<char>)
    ensures
        has(ascii_folded(slug), ascii_folded(hint)) == stands_in(slug, hint),
{
    let x = ascii_folded(slug);
    let y = ascii_folded(hint);
    assert(x.len() == slug.len() && y.len() == hint.len());
    if has(x, y) {
        let i = choose|i: int| occurs_at(x, y, i);
        assert forall|k: int| 0 <= k < hint.len() implies #[trigger] same_letter(
            slug[i + k],
            hint[k],
        ) by {
            assert(x.subrange(i, i + y.len())[k] == y[k]);
            assert(x[i + k] == ascii_lower(slug[i + k]));
        }
        assert(stands_in_at(slug, hint, i));
    }
    if stands_in(slug, hint) {
        let i = choose|i: int| #[trigger] stands_in_at(slug, hint, i);
        assert forall|k: int| 0 <= k < y.len() implies x.subrange(i, i + y.len())[k] == y[k] by {
            assert(same_letter(slug[i + k], hint[k]));
        }
        assert(x.subrange(i, i + y.len()) =~= y);
        assert(occurs_at(x, y, i));
    }
}

/// A hint that stands in a slug as it is written stands in it, and so it does with
/// the letters of either in another case.
pub proof fn law_hint_as_written(
    slug: Seq<char>,
    hint: Seq<char>,
    other_slug: Seq<char>,
    other_hint: Seq<char>,
)
    requires
        ascii_folded(slug) == ascii_folded(other_slug),
        ascii_folded(hint) == ascii_folded(other_hint),
    ensures
        has(slug, hint) ==> stands_in(slug, hint),
        stands_in(slug, hint) == stands_in(other_slug, other_hint),
{
    lemma_stands_in(slug, hint);
    lemma_stands_in(other_slug, other_hint);
    if has(slug, hint) {
        let i = choose|i: int| occurs_at(slug, hint, i);
        assert forall|k: int| 0 <= k < hint.len() implies #[trigger] same_letter(
            slug[i + k],
            hint[k],
        ) by {
            assert(slug.subrange(i, i + hint.len())[k] == hint[k]);
        }
        assert(stands_in_at(slug, hint, i));
    }
}

/// A choice offers every row that matched and no other: nothing is chosen where
/// none did, and the user is asked only where there are two or more.
pub proof fn law_choice(matches: Seq<RepoView>, hint: Seq<char>, r: Result<Choice, SelectError>)
    requires
        chosen_among(matches, hint, r),
    ensures
        offered(r) == matches,
        r is Err == (matches.len() == 0),
        (r is Ok && r->Ok_0 is One) == (matches.len() == 1),
        (r is Ok && r->Ok_0 is Ask) == (matches.len() >= 2),
{
    assert(offered(r) =~= matches);
}

/// Whether `r` is what selecting from a shelf by tags and then by a hint gives.
pub open spec fn selected(
    shelf: ShelfView,
    tags: Seq<Seq<char>>,
    hint: Option<Seq<char>>,
    prompt: Seq<char>,
    when_empty: Seq<char>,
    r: Result<Choice, SelectError>,
) -> bool {
    let rows = shelf.tagged(tags);
    if shelf.rows.len() == 0 {
        r matches Err(SelectError::EmptyShelf(t)) && t@ == when_empty
    } else if rows.len() == 0 {
        r matches Err(SelectError::NoTagMatch(n)) && n == shelf.rows.len()
    } else if hint is Some {
        chosen_among(hinted(rows, hint->0), hint->0, r)
    } else {
        r matches Ok(Choice::Ask { prompt: p, among }) && p@ == prompt && views(among@) == rows
    }
}

/// The repository to work on: of those with the wanted tags, the one that the
/// hint names; without a hint the user is asked.
pub fn select<'a>(
    shelf: &'a Shelf,
    tags: &[String],
    hint: Option<&str>,
    prompt: &str,
    when_empty: &'static str,
) -> (r: Result<Choice<'a>, SelectError>)
    ensures
        selected(shelf@, texts(tags@), opt_str(hint), prompt@, when_empty@, r),
        hint is None && shelf@.rows.len() > 0 ==> offered(r) == shelf@.tagged(texts(tags@)),
        hint is Some && all_ascii(hint->0@) && ascii_slugs(shelf@.tagged(texts(tags@)))
            ==> selects(shelf@.tagged(texts(tags@)), named_by(hint->0@), offered(r)),
{
    if shelf.is_empty() {
        proof {
            reveal(Seq::filter);
            lemma_selects_nothing(shelf@.tagged(texts(tags@)), named_by(opt_str(hint)->0));
        }
        return Err(SelectError::EmptyShelf(when_empty));
    }
    let tagged = shelf.filter_by_tags(tags);
    if tagged.len() == 0 {
        proof {
            lemma_selects_nothing(shelf@.tagged(texts(tags@)), named_by(opt_str(hint)->0));
            assert(shelf@.tagged(texts(tags@)) =~= Seq::empty());
        }
        return Err(SelectError::NoTagMatch(shelf.len()));
    }
    match hint {
        Some(h) => choose_by_hint(&tagged, h),
        None => Ok(Choice::Ask { prompt: prompt.to_owned(), among: tagged }),
    }
}

/// What `cd` says of an empty shelf.
pub const CD_EMPTY: &'static str =
    "shelf is empty — nothing to cd into. `shoka clone <url>` or `shoka import <dir>` first";

/// The repository to go to.
pub fn run<'a>(shelf: &'a Shelf, tags: &[String], hint: Option<&str>) -> (r: Result<
    Choice<'a>,
    SelectError,
>)
    ensures
        selected(shelf@, texts(tags@), opt_str(hint), "cd to:"@, CD_EMPTY@, r),
        hint is None && shelf@.rows.len() > 0 ==> offered(r) == shelf@.tagged(texts(tags@)),
        hint is Some && all_ascii(hint->0@) && ascii_slugs(shelf@.tagged(texts(tags@)))
            ==> selects(shelf@.tagged(texts(tags@)), named_by(hint->0@), offered(r)),
{
    select(shelf, tags, hint, "cd to:", CD_EMPTY)
}

/// The path, where it is a directory.
pub fn landing(repo: &Repo, path: String, is_dir: bool) -> (r: Result<String, SelectError>)
    ensures
        match r {
            Ok(p) => is_dir && p == path,
            Err(e) => !is_dir && (e matches SelectError::Missing { slug, path: p } && slug@
                == repo@.slug() && p@ == path@),
        },
{
    if is_dir {
        Ok(path)
    } else {
        Err(SelectError::Missing { slug: repo.slug(), path })
    }
}

/// How a path is handed on.
#[derive(Debug)]
pub enum Emission {
    /// `body` is written to `file`; once that has succeeded, and where it is a
    /// terminal, standard error is sent `osc7`.
    ToFile { file: String, body: String, osc7: String },
    /// This line goes to standard output.
    ToStdout(String),
}

/// How a path is handed on: to the file that the wrapper names, with a hint to
/// the terminal; without one, as a line on standard output.
pub fn emit_path(path: &str, cd_out: Option<&str>) -> (r: Emission)
    ensures
        if cd_out is Some && cd_out->0@.len() > 0 {
            r matches Emission::ToFile { file, body, osc7 } && file@ == cd_out->0@ && body@ == path@
                && osc7@ == osc7_text(url_of_path(path@))
        } else {
            r matches Emission::ToStdout(line) && line@ == path@
        },
{
    match cd_out {
        Some(out) => {
            if !out.is_empty() {
                let url = file_url(path);
                return Emission::ToFile {
                    file: out.to_owned(),
                    body: path.to_owned(),
                    osc7: osc7_sequence(url.as_str()),
                };
            }
        },
        None => {},
    }
    Emission::ToStdout(path.to_owned())
}

/// A URL in the control sequence that tells a terminal its working directory.
pub open spec fn osc7_text(url: Seq<char>) -> Seq<char> {
    "\x1b]7;"@ + url + "\x1b\\"@
}

/// A URL in the control sequence that tells a terminal its working directory.
pub fn osc7_sequence(url: &str) -> (r: String)
    ensures
        r@ == osc7_text(url@),
{
    "\x1b]7;".to_owned().concat(url).concat("\x1b\\")
}

/// The character for a hexadecimal digit, in upper case.
pub open spec fn hex_digit(n: int) -> char {
    if n < 10 {
        ('0' as int + n) as char
    } else {
        ('A' as int + (n - 10)) as char
    }
}

/// The character for a hexadecimal digit, in upper case.
pub fn hex_upper(nibble: u8) -> (r: char)
    requires
        nibble < 16,
    ensures
        r == hex_digit(nibble as int),
{
    if nibble < 10 {
        (48u8 + nibble) as char
    } else {
        (65u8 + (nibble - 10)) as char
    }
}

/// The bytes that stand for themselves in the path of a URL.
pub open spec fn kept_byte(b: u8) -> bool {
    ||| 48 <= b <= 57
    ||| 65 <= b <= 90
    ||| 97 <= b <= 122
    ||| b == 45
    ||| b == 46
    ||| b == 95
    ||| b == 126
    ||| b == 47
    ||| b == 58
}

/// One byte of a URL's path: itself, or `%` and two digits.
pub open spec fn encoded_byte(b: u8) -> Seq<char> {
    if kept_byte(b) {
        seq![b as char]
    } else {
        seq!['%', hex_digit(b as int / 16), hex_digit(b as int % 16)]
    }
}

/// Bytes as the path of a URL.
pub open spec fn percent_encoded(bytes: Seq<u8>) -> Seq<char>
    decreases bytes.len(),
{
    if bytes.len() == 0 {
        Seq::empty()
    } else {
        percent_encoded(bytes.drop_last()) + encoded_byte(bytes.last())
    }
}

/// A text as the path of a URL: letters, digits and `-._~/:` stand for
/// themselves, and every other byte of its UTF-8 becomes `%XX`.
pub fn percent_encode_path(s: &str) -> (r: String)
    ensures
        r@ == percent_encoded(encode_utf8(s@)),
{
    let bytes = s.as_bytes();
    let mut out = String::new();
    let mut i: usize = 0;
    assert(bytes@.take(0) =~= Seq::<u8>::empty());
    while i < bytes.len()
        invariant
            bytes@ == encode_utf8(s@),
            i <= bytes@.len(),
            out@ == percent_encoded(bytes@.take(i as int)),
        decreases bytes@.len() - i,
    {
        assert(bytes@.take(i + 1).drop_last() =~= bytes@.take(i as int));
        let b: u8 = bytes[i];
        let ghost was = out@;
        if (48 <= b && b <= 57) || (65 <= b && b <= 90) || (97 <= b && b <= 122) || b == 45 || b
            == 46 || b == 95 || b == 126 || b == 47 || b == 58 {
            out.push(b as char);
            assert(out@ =~= was + encoded_byte(b));
        } else {
            out.push('%');
            out.push(hex_upper(b / 16));
            out.push(hex_upper(b % 16));
            assert(out@ =~= was + encoded_byte(b));
        }
        i = i + 1;
    }
    assert(bytes@.take(i as int) =~= bytes@);
    out
}

/// A path with slashes for backslashes, and a slash in front.
pub open spec fn slashed(path: Seq<char>) -> Seq<char> {
    let s = path.map_values(|c: char| if c == '\\' {
        '/'
    } else {
        c
    });
    if s.len() > 0 && s[0] == '/' {
        s
    } else {
        seq!['/'] + s
    }
}

/// A path as the path of a `file:` URL.
pub fn to_url_path(raw: &str) -> (r: String)
    ensures
        r@ == percent_encoded(encode_utf8(slashed(raw@))),
{
    let v = chars_of(raw);
    let mut out = String::new();
    if !(v.len() > 0 && (v[0] == '/' || v[0] == '\\')) {
        out.push('/');
    }
    let ghost head = out@;
    let ghost mapped = raw@.map_values(|c: char| if c == '\\' {
        '/'
    } else {
        c
    });
    let mut i: usize = 0;
    assert(out@ =~= head + mapped.take(0));
    while i < v.len()
        invariant
            v@ == raw@,
            mapped == raw@.map_values(|c: char| if c == '\\' {
                '/'
            } else {
                c
            }),
            i <= v@.len(),
            out@ == head + mapped.take(i as int),
        decreases v@.len() - i,
    {
        out.push(if v[i] == '\\' {
            '/'
        } else {
            v[i]
        });
        assert(mapped.take(i + 1) =~= mapped.take(i as int).push(mapped[i as int]));
        assert(out@ =~= head + mapped.take(i + 1));
        i = i + 1;
    }
    assert(mapped.take(i as int) =~= mapped);
    assert(out@ =~= slashed(raw@));
    percent_encode_path(out.as_str())
}

/// The `file:` URL of a path. A path that starts with two slashes names a
/// server, which is the URL's authority; any other has none.
pub open spec fn url_of_path(path: Seq<char>) -> Seq<char> {
    let p = percent_encoded(encode_utf8(slashed(path)));
    if occurs_at(p, "//"@, 0) {
        "file:"@ + p
    } else {
        "file://"@ + p
    }
}

/// The `file:` URL of a path.
pub fn file_url(path: &str) -> (r: String)
    ensures
        r@ == url_of_path(path@),
{
    let p = to_url_path(path);
    let v = chars_of(p.as_str());
    let two = chars_of("//");
    if stands_at(&v, &two, 0) {
        "file:".to_owned().concat(p.as_str())
    } else {
        "file://".to_owned().concat(p.as_str())
    }
}

/// A path with the home directory shortened to `~`; what lies below it stays as
/// it is written.
pub open spec fn shortened(path: Seq<char>, home: Option<Seq<char>>) -> Seq<char> {
    if home is None {
        path
    } else {
        let p = path_key(path);
        let h = path_key(home->0);
        if p.rooted == h.rooted && h.parts.is_prefix_of(p.parts) {
            if p.parts.len() == h.parts.len() {
                "~"@
            } else {
                (if windows(path) {
                    "~\\"@
                } else {
                    "~/"@
                }) + written_from(path, h.parts.len() as int)
            }
        } else {
            path
        }
    }
}

/// A path with the home directory shortened to `~`; one that does not lie
/// under it stays.
pub fn shorten_under(path: &str, home: Option<&str>) -> (r: String)
    ensures
        r@ == shortened(path@, opt_str(home)),
{
    let dir = match home {
        Some(h) => h,
        None => {
            return path.to_owned();
        },
    };
    if is_rooted(path) != is_rooted(dir) {
        return path.to_owned();
    }
    let p = components(path);
    let h = components(dir);
    let ghost ps = texts(p@);
    let ghost hs = texts(h@);
    if h.len() > p.len() {
        assert(!hs.is_prefix_of(ps));
        return path.to_owned();
    }
    let mut i: usize = 0;
    while i < h.len()
        invariant
            ps == texts(p@),
            hs == texts(h@),
            path_key(path@).parts == ps,
            path_key(dir@).parts == hs,
            opt_str(home) == Some(dir@),
            i <= h@.len() <= p@.len(),
            forall|k: int| 0 <= k < i ==> h@[k]@ == p@[k]@,
        decreases h@.len() - i,
    {
        if h[i] != p[i] {
            assert(hs[i as int] != ps[i as int]);
            return path.to_owned();
        }
        i = i + 1;
    }
    assert(hs.is_prefix_of(ps)) by {
        assert(ps.take(hs.len() as int) =~= hs);
    }
    if p.len() == h.len() {
        return "~".to_owned();
    }
    let sign = if is_windows(path) {
        "~\\"
    } else {
        "~/"
    };
    sign.to_owned().concat(text_from(path, h.len()).as_str())
}

/// A path with the user's home directory shortened to `~`.
pub fn tilde_shorten(path: &str) -> (r: String)
    ensures
        exists|home: Option<Seq<char>>| r@ == #[trigger] shortened(path@, home),
{
    let home = home_dir();
    let r = match &home {
        Some(h) => shorten_under(path, Some(h.as_str())),
        None => shorten_under(path, None),
    };
    assert(r@ == shortened(path@, opt_text(home)));
    r
}

/// The line that a repository is offered by: its slug, and where it is pinned.
pub fn repo_label(repo: &Repo, home: Option<&str>) -> (r: String)
    ensures
        r@ == (match repo@.path {
            Some(p) => repo@.slug() + "  →  "@ + shortened(p, opt_str(home)),
            None => repo@.slug(),
        }),
{
    let slug = repo.slug();
    match &repo.path {
        Some(p) => slug.concat("  →  ").concat(shorten_under(p.as_str(), home).as_str()),
        None => slug,
    }
}

/// What a character of an encoded path can be.
pub open spec fn url_path_char(c: char) -> bool {
    c == '%' || (c as int <= 127 && kept_byte(c as u8))
}

/// An encoded path holds nothing but letters, digits and `-._~/:%`; no byte of
/// the path can end the control sequence that it stands in.
pub proof fn law_encoded_path_is_plain(bytes: Seq<u8>)
    ensures
        forall|i: int|
            0 <= i < percent_encoded(bytes).len() ==> url_path_char(
                #[trigger] percent_encoded(bytes)[i],
            ),
    decreases bytes.len(),
{
    if bytes.len() > 0 {
        law_encoded_path_is_plain(bytes.drop_last());
        let front = percent_encoded(bytes.drop_last());
        let tail = encoded_byte(bytes.last());
        assert forall|i: int| 0 <= i < percent_encoded(bytes).len() implies url_path_char(
            #[trigger] percent_encoded(bytes)[i],
        ) by {
            if i < front.len() {
                assert(percent_encoded(bytes)[i] == front[i]);
            } else {
                assert(percent_encoded(bytes)[i] == tail[i - front.len()]);
            }
        }
    }
}

/// A path of bytes that stand for themselves is not changed by encoding it.
pub proof fn law_plain_path_is_kept(bytes: Seq<u8>)
    requires
        forall|i: int| 0 <= i < bytes.len() ==> kept_byte(#[trigger] bytes[i]),
    ensures
        percent_encoded(bytes) == Seq::new(bytes.len(), |i: int| bytes[i] as char),
    decreases bytes.len(),
{
    if bytes.len() > 0 {
        assert(kept_byte(bytes[bytes.len() - 1]));
        law_plain_path_is_kept(bytes.drop_last());
        assert(percent_encoded(bytes) =~= Seq::new(bytes.len(), |i: int| bytes[i] as char));
    } else {
        assert(percent_encoded(bytes) =~= Seq::new(bytes.len(), |i: int| bytes[i] as char));
    }
}

/// The value of a hexadecimal digit in upper case.
pub open spec fn hex_value(c: char) -> int {
    if c as int <= '9' as int {
        c as int - '0' as int
    } else {
        c as int - 'A' as int + 10
    }
}

/// The bytes that the path of a URL stands for.
pub open spec fn percent_decoded(s: Seq<char>) -> Seq<u8>
    decreases s.len(),
{
    if s.len() == 0 {
        Seq::empty()
    } else if s[0] == '%' && s.len() >= 3 {
        seq![(hex_value(s[1]) * 16 + hex_value(s[2])) as u8] + percent_decoded(s.skip(3))
    } else {
        seq![s[0] as u8] + percent_decoded(s.skip(1))
    }
}

proof fn lemma_encoded_front(bytes: Seq<u8>)
    requires
        bytes.len() > 0,
    ensures
        percent_encoded(bytes) == encoded_byte(bytes[0]) + percent_encoded(bytes.skip(1)),
    decreases bytes.len(),
{
    if bytes.len() > 1 {
        let front = bytes.drop_last();
        lemma_encoded_front(front);
        assert(front.skip(1) =~= bytes.skip(1).drop_last());
        assert(percent_encoded(bytes) =~= encoded_byte(bytes[0]) + percent_encoded(bytes.skip(1)));
    } else {
        assert(bytes.drop_last() =~= Seq::<u8>::empty());
        assert(bytes.skip(1) =~= Seq::<u8>::empty());
        assert(percent_encoded(bytes) =~= encoded_byte(bytes[0]) + percent_encoded(bytes.skip(1)));
    }
}

/// The path can be read back from its URL: no two paths have the same one.
pub proof fn law_encoded_path_reads_back(bytes: Seq<u8>)
    ensures
        percent_decoded(percent_encoded(bytes)) == bytes,
    decreases bytes.len(),
{
    if bytes.len() > 0 {
        let b = bytes[0];
        let rest = bytes.skip(1);
        let s = percent_encoded(bytes);
        lemma_encoded_front(bytes);
        law_encoded_path_reads_back(rest);
        let head = encoded_byte(b);
        if kept_byte(b) {
            assert(s[0] == b as char);
            assert(s.skip(1) =~= percent_encoded(rest));
        } else {
            assert(s[0] == '%');
            assert(s[1] == hex_digit(b as int / 16));
            assert(s[2] == hex_digit(b as int % 16));
            assert(s.skip(3) =~= percent_encoded(rest));
            assert(hex_value(s[1]) == b as int / 16);
            assert(hex_value(s[2]) == b as int % 16);
        }
        assert(percent_decoded(s) =~= seq![b] + rest);
        assert(seq![b] + rest =~= bytes);
    } else {
        assert(percent_decoded(percent_encoded(bytes)) =~= bytes);
    }
}

/// The bytes that stand for themselves in the path of a URL are those of the ASCII
/// letters and digits and of `-`, `.`, `_`, `~`, `/` and `:`. No other does.
pub proof fn law_bytes_that_stand_for_themselves(b: u8)
    ensures
        kept_byte(b) == ({
            let c = b as char;
            ||| 'a' <= c <= 'z'
            ||| 'A' <= c <= 'Z'
            ||| '0' <= c <= '9'
            ||| c == '-' || c == '.' || c == '_' || c == '~' || c == '/' || c == ':'
        }),
        encoded_byte(b).len() == (if kept_byte(b) {
            1int
        } else {
            3
        }),
{
}

/// A URL stands in the control sequence as it is, between the four characters that
/// open the sequence and the two that end it.
pub proof fn law_control_sequence(url: Seq<char>)
    ensures
        ({
            let s = osc7_text(url);
            let n = s.len() as int;
            &&& n == url.len() + 6
            &&& s[0] == '\x1b' && s[1] == ']' && s[2] == '7' && s[3] == ';'
            &&& s.subrange(4, n - 2) == url
            &&& s[n - 2] == '\x1b' && s[n - 1] == '\\'
        }),
{
    reveal_strlit("\x1b]7;");
    reveal_strlit("\x1b\\");
    let a = "\x1b]7;"@;
    let b = "\x1b\\"@;
    assert(a[0] == '\x1b' && a[1] == ']' && a[2] == '7' && a[3] == ';');
    assert(b[0] == '\x1b' && b[1] == '\\');
    let s = osc7_text(url);
    assert(s.subrange(4, s.len() - 2) =~= url);
}

/// A path with its backslashes turned starts at the root and holds no backslash; one
/// that has none and starts at the root is kept, and any other is longer by at most
/// the slash in front.
pub proof fn law_slashed(path: Seq<char>)
    ensures
        slashed(path).len() > 0,
        slashed(path)[0] == '/',
        !slashed(path).contains('\\'),
        path.len() > 0 && path[0] == '/' && !path.contains('\\') ==> slashed(path) == path,
        path.len() > 0 && (path[0] == '/' || path[0] == '\\') ==> slashed(path).len() == path.len(),
        path.len() == 0 || (path[0] != '/' && path[0] != '\\') ==> slashed(path).len() == path.len()
            + 1,
        forall|i: int|
            #![trigger path[i]]
            0 <= i < path.len() && path[i] != '\\' ==> slashed(path)[slashed(path).len()
                - path.len() + i] == path[i],
        forall|i: int|
            #![trigger path[i]]
            0 <= i < path.len() && path[i] == '\\' ==> slashed(path)[slashed(path).len()
                - path.len() + i] == '/',
{
    let s = slashed(path);
    assert forall|i: int| 0 <= i < s.len() implies s[i] != '\\' by {}
    if path.len() > 0 && path[0] == '/' && !path.contains('\\') {
        assert forall|i: int| 0 <= i < path.len() implies s[i] == path[i] by {
            assert(path.contains(path[i]));
        }
        assert(s =~= path);
    }
}

/// The URL of a path starts with `file://`. What stands behind that is the encoded
/// path, less the two slashes that name a server.
pub proof fn law_file_url(path: Seq<char>)
    ensures
        ({
            let url = url_of_path(path);
            let p = percent_encoded(encode_utf8(slashed(path)));
            &&& occurs_at(url, "file://"@, 0)
            &&& p.len() >= 2 && p[0] == '/' && p[1] == '/' ==> url.skip(5) == p
            &&& !(p.len() >= 2 && p[0] == '/' && p[1] == '/') ==> url.skip(7) == p
        }),
{
    reveal_strlit("//");
    reveal_strlit("file:");
    reveal_strlit("file://");
    let url = url_of_path(path);
    let p = percent_encoded(encode_utf8(slashed(path)));
    let two = "//"@;
    let scheme = "file:"@;
    let whole = "file://"@;
    assert(two[0] == '/' && two[1] == '/');
    assert(whole =~= scheme + two) by {
        assert(scheme[0] == 'f' && scheme[1] == 'i' && scheme[2] == 'l' && scheme[3] == 'e'
            && scheme[4] == ':');
        assert(whole[0] == 'f' && whole[1] == 'i' && whole[2] == 'l' && whole[3] == 'e' && whole[4]
            == ':' && whole[5] == '/' && whole[6] == '/');
    }
    if occurs_at(p, two, 0) {
        assert(p.subrange(0, 2)[0] == '/' && p.subrange(0, 2)[1] == '/');
        assert(url.skip(5) =~= p);
        assert(url.subrange(0, 7) =~= whole);
    } else {
        if p.len() >= 2 && p[0] == '/' && p[1] == '/' {
            assert(p.subrange(0, 2) =~= two);
        }
        assert(url.skip(7) =~= p);
        assert(url.subrange(0, 7) =~= whole);
    }
}

/// The home directory is shown as `~`, and what lies below it as `~/` and the rest of
/// the path, as it is written. Any other path is shown as it is, one whose name only
/// begins like the home directory among them.
pub proof fn law_home_is_shortened(home: Seq<Seq<char>>, rest: Seq<Seq<char>>, path: Seq<Seq<char>>)
    requires
        plain_parts(home),
        plain_parts(rest),
        plain_parts(path),
        rest.len() > 0,
    ensures
        shortened(from_root(home), Some(from_root(home))) == "~"@,
        shortened(from_root(home + rest), Some(from_root(home))) == "~/"@ + joined(rest, "/"@),
        !(path.len() >= home.len() && path.take(home.len() as int) == home) ==> shortened(
            from_root(path),
            Some(from_root(home)),
        ) == from_root(path),
        shortened(from_root(path), None) == from_root(path),
{
    reveal_strlit("/");
    let whole = home + rest;
    assert forall|i: int| 0 <= i < whole.len() implies plain_part(#[trigger] whole[i]) by {
        if i < home.len() {
            assert(whole[i] == home[i]);
        } else {
            assert(whole[i] == rest[i - home.len()]);
        }
    }
    law_components(home);
    law_components(whole);
    law_components(path);
    law_written_from(whole, home.len() as int);
    assert(whole.skip(home.len() as int) =~= rest);
    assert(home.is_prefix_of(whole)) by {
        assert(whole.take(home.len() as int) =~= home);
    }
    assert(from_root(whole)[0] == '/');
    if home.is_prefix_of(path) {
        assert(path.take(home.len() as int) =~= home);
    }
}

/// What is said where nothing was selected names the hint, the number of rows, or the
/// row and its path.
pub proof fn law_messages_name_the_choice(e: SelectError)
    ensures
        e matches SelectError::NoTagMatch(n) ==> has(e.text(), decimal(n as nat)),
        e matches SelectError::NoHintMatch(hint) ==> has(e.text(), hint@),
        e matches SelectError::Missing { slug, path } ==> has(
            e.text(),
            slug@ + " resolves to "@ + path@,
        ),
{
    match e {
        SelectError::NoTagMatch(n) => {
            let number = decimal(n as nat);
            let head = "no repos matched the tag filter ("@;
            lemma_stands_between(head, number, " on the shelf total)"@);
        },
        SelectError::NoHintMatch(hint) => {
            let head = "no repos on the shelf match `"@;
            let tail = "` — try `shoka list` to see what's there"@;
            lemma_stands_between(head, hint@, tail);
        },
        SelectError::Missing { slug, path } => {
            lemma_stands_at_an_end(
                Seq::empty(),
                slug@ + " resolves to "@ + path@,
                ", but that path doesn't exist — the repo was probably moved or deleted; try `shoka prune` to clean up the shelf"@,
            );
        },
        _ => {},
    }
}

/// Selecting fails where the shelf is empty, and otherwise where no row carries the
/// wanted tags, with the number of rows. Without a hint the user is asked about all
/// that do. With one only rows that carry the tags are offered.
pub proof fn law_selection(
    shelf: ShelfView,
    tags: Seq<Seq<char>>,
    hint: Option<Seq<char>>,
    prompt: Seq<char>,
    when_empty: Seq<char>,
    r: Result<Choice, SelectError>,
)
    requires
        selected(shelf, tags, hint, prompt, when_empty, r),
    ensures
        (r is Err && r->Err_0 is EmptyShelf) == (shelf.rows.len() == 0),
        (r is Err && r->Err_0 is NoTagMatch) == (shelf.rows.len() > 0 && forall|i: int|
            0 <= i < shelf.rows.len() ==> !(#[trigger] shelf.rows[i]).has_all_tags(tags)),
        r is Err && r->Err_0 is NoTagMatch ==> r->Err_0->NoTagMatch_0 == shelf.rows.len(),
        r is Err && r->Err_0 is NoHintMatch ==> hint == Some(r->Err_0->NoHintMatch_0@),
        !(r is Err && r->Err_0 is Missing),
        hint is None && r is Ok ==> r->Ok_0 is Ask && r->Ok_0->prompt@ == prompt && offered(r)
            == shelf.tagged(tags),
        forall|k: int|
            0 <= k < offered(r).len() ==> shelf.rows.contains(#[trigger] offered(r)[k])
                && offered(r)[k].has_all_tags(tags),
{
    let p = |row: RepoView| row.has_all_tags(tags);
    let rows = shelf.tagged(tags);
    let at = lemma_filter_selects(shelf.rows, p);
    lemma_selection(shelf.rows, p, rows);
    if rows.len() == 0 {
        assert forall|i: int| 0 <= i < shelf.rows.len() implies !(
        #[trigger] shelf.rows[i]).has_all_tags(tags) by {
            if p(shelf.rows[i]) {
                assert(rows.contains(shelf.rows[i]));
            }
        }
    } else {
        assert(p(rows[0]) && shelf.rows.contains(rows[0]));
        let i = choose|i: int| 0 <= i < shelf.rows.len() && shelf.rows[i] == rows[0];
        assert(shelf.rows[i].has_all_tags(tags));
    }
    if shelf.rows.len() > 0 && rows.len() > 0 {
        if let Some(h) = hint {
            let q = |row: RepoView| hint_matches(row.slug(), h);
            let found = hinted(rows, h);
            law_choice(found, h, r);
            let also = lemma_filter_selects(rows, q);
            lemma_selection(rows, q, found);
            assert forall|k: int| 0 <= k < offered(r).len() implies shelf.rows.contains(
                #[trigger] offered(r)[k],
            ) && offered(r)[k].has_all_tags(tags) by {
                assert(rows.contains(found[k]));
                let m = choose|m: int| 0 <= m < rows.len() && rows[m] == found[k];
                assert(p(rows[m]) && shelf.rows.contains(rows[m]));
            }
        } else {
            assert forall|k: int| 0 <= k < offered(r).len() implies shelf.rows.contains(
                #[trigger] offered(r)[k],
            ) && offered(r)[k].has_all_tags(tags) by {
                assert(p(rows[k]) && shelf.rows.contains(rows[k]));
            }
        }
    }
}

} // verus!
