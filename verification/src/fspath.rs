//! Paths as text.
//!
//! A path is a `/`-separated text. Two spellings name the same path when they
//! have the same components: repeated and trailing separators do not count,
//! nor does a `.` component, unless it opens a relative path.
//!
//! A path that begins with a drive or with two backslashes is one of Windows. In
//! it a backslash separates too, and both spellings of the separator name the
//! same path. What is cut from a path keeps its spelling.
use vstd::prelude::*;
use vstd::string::*;

use crate::text::{
    chars_of, joined, join as join_texts, law_joined_parts, law_split_pieces, lemma_split_at,
    lemma_split_whole, opt_str, opt_text, same_text, split, split_on, string_of, texts,
};

verus! {

/// What a path names: whether it starts at the root, and its components.
#[verifier::ext_equal]
pub struct PathKey {
    pub rooted: bool,
    pub parts: Seq<Seq<char>>,
}

/// Whether a path begins with a drive and a separator.
pub open spec fn has_drive(p: Seq<char>) -> bool {
    p.len() >= 3 && ('a' <= p[0] <= 'z' || 'A' <= p[0] <= 'Z') && p[1] == ':' && (p[2] == '\\'
        || p[2] == '/')
}

/// Whether a path is one of Windows: it begins with a drive, or with two
/// backslashes.
pub open spec fn windows(p: Seq<char>) -> bool {
    has_drive(p) || (p.len() >= 2 && p[0] == '\\' && p[1] == '\\')
}

/// Whether a path is one of Windows.
pub fn is_windows(p: &str) -> (r: bool)
    ensures
        r == windows(p@),
{
    let v = chars_of(p);
    starts_with_drive(p) || (v.len() >= 2 && v[0] == '\\' && v[1] == '\\')
}

fn starts_with_drive(p: &str) -> (r: bool)
    ensures
        r == has_drive(p@),
{
    let v = chars_of(p);
    v.len() >= 3 && (('a' <= v[0] && v[0] <= 'z') || ('A' <= v[0] && v[0] <= 'Z')) && v[1] == ':'
        && (v[2] == '\\' || v[2] == '/')
}

/// A path with a slash for each of its separators.
pub open spec fn unified(p: Seq<char>) -> Seq<char> {
    if windows(p) {
        p.map_values(
            |c: char|
                if c == '\\' {
                    '/'
                } else {
                    c
                },
        )
    } else {
        p
    }
}

/// A path with a slash for each of its separators.
fn unify(p: &str) -> (r: String)
    ensures
        r@ == unified(p@),
{
    if !is_windows(p) {
        return p.to_owned();
    }
    let v = chars_of(p);
    let ghost want = unified(p@);
    let mut out = String::new();
    let mut i: usize = 0;
    assert(out@ =~= want.take(0));
    while i < v.len()
        invariant
            v@ == p@,
            windows(p@),
            want == unified(p@),
            i <= v@.len(),
            out@ == want.take(i as int),
        decreases v@.len() - i,
    {
        out.push(
            if v[i] == '\\' {
                '/'
            } else {
                v[i]
            },
        );
        assert(want.take(i + 1) =~= want.take(i as int).push(want[i as int]));
        i = i + 1;
    }
    assert(want.take(i as int) =~= want);
    out
}

/// Whether the path starts at the root.
pub open spec fn rooted(p: Seq<char>) -> bool {
    unified(p).len() > 0 && unified(p)[0] == '/'
}

/// The components among the `/`-separated pieces of a path.
pub open spec fn kept(pieces: Seq<Seq<char>>) -> Seq<Seq<char>>
    decreases pieces.len(),
{
    if pieces.len() == 0 {
        Seq::empty()
    } else {
        let front = kept(pieces.drop_last());
        let last = pieces.last();
        if last.len() == 0 || (last == "."@ && pieces.len() > 1) {
            front
        } else {
            front.push(last)
        }
    }
}

/// What the text names as a path.
pub open spec fn path_key(p: Seq<char>) -> PathKey {
    PathKey { rooted: rooted(p), parts: kept(split(unified(p), '/')) }
}

/// What an optional path names.
pub open spec fn opt_key(p: Option<Seq<char>>) -> Option<PathKey> {
    match p {
        Some(t) => Some(path_key(t)),
        None => None,
    }
}

/// Whether the path starts at the root.
pub fn is_rooted(p: &str) -> (r: bool)
    ensures
        r == rooted(p@),
{
    let u = unify(p);
    let v = chars_of(u.as_str());
    v.len() > 0 && v[0] == '/'
}

/// The components of a path.
pub fn components(p: &str) -> (r: Vec<String>)
    ensures
        texts(r@) == path_key(p@).parts,
{
    let u = unify(p);
    let pieces = split_on(u.as_str(), '/');
    let mut out: Vec<String> = Vec::new();
    let mut i: usize = 0;
    let ghost all = texts(pieces@);
    assert(texts(out@) =~= kept(all.take(0)));
    while i < pieces.len()
        invariant
            all == texts(pieces@),
            all == split(unified(p@), '/'),
            i <= pieces@.len(),
            texts(out@) == kept(all.take(i as int)),
        decreases pieces@.len() - i,
    {
        assert(all.take(i + 1).drop_last() =~= all.take(i as int));
        assert(all.take(i + 1).last() == pieces@[i as int]@);
        let piece = &pieces[i];
        let empty = piece.as_str().is_empty();
        let dot = same_text(piece.as_str(), ".");
        if !(empty || (dot && i > 0)) {
            let ghost was = texts(out@);
            out.push(piece.clone());
            assert(texts(out@) =~= was.push(piece@));
        }
        i = i + 1;
    }
    assert(all.take(i as int) =~= all);
    out
}

/// Whether two paths have the same components.
pub fn same_path(a: &str, b: &str) -> (r: bool)
    ensures
        r == (path_key(a@) == path_key(b@)),
{
    if is_rooted(a) != is_rooted(b) {
        return false;
    }
    let x = components(a);
    let y = components(b);
    same_texts(&x, &y)
}

/// Whether two lists of strings hold the same texts.
pub fn same_texts(x: &[String], y: &[String]) -> (r: bool)
    ensures
        r == (texts(x@) == texts(y@)),
{
    if x.len() != y.len() {
        assert(texts(x@).len() != texts(y@).len());
        return false;
    }
    let mut i: usize = 0;
    while i < x.len()
        invariant
            i <= x@.len() == y@.len(),
            forall|k: int| 0 <= k < i ==> x@[k]@ == y@[k]@,
        decreases x@.len() - i,
    {
        if x[i] != y[i] {
            assert(texts(x@)[i as int] != texts(y@)[i as int]);
            return false;
        }
        i = i + 1;
    }
    assert(texts(x@) =~= texts(y@));
    true
}

/// Whether an optional path and an optional slice are both absent, or name
/// the same path.
pub fn matches_opt_path(a: &Option<String>, b: Option<&str>) -> (r: bool)
    ensures
        r == (opt_key(opt_text(*a)) == opt_key(opt_str(b))),
{
    match (a, b) {
        (Some(x), Some(y)) => same_path(x.as_str(), y),
        (None, None) => true,
        _ => false,
    }
}

/// `rel` taken from the directory `base`; a rooted `rel` stands by itself, on the
/// drive of `base` where it names none.
pub open spec fn path_join(base: Seq<char>, rel: Seq<char>) -> Seq<char> {
    if windows(rel) {
        rel
    } else if rooted(rel) {
        if has_drive(base) {
            base.take(2) + rel
        } else {
            rel
        }
    } else if base.len() == 0 || unified(base).last() == '/' {
        base + rel
    } else if windows(base) {
        base + "\\"@ + rel
    } else {
        base + "/"@ + rel
    }
}

/// `rel` taken from the directory `base`; a rooted `rel` stands by itself, on the
/// drive of `base` where it names none.
pub fn join(base: &str, rel: &str) -> (r: String)
    ensures
        r@ == path_join(base@, rel@),
{
    if is_windows(rel) {
        return rel.to_owned();
    }
    if is_rooted(rel) {
        if starts_with_drive(base) {
            let v = chars_of(base);
            let drive = string_of(&v, 0, 2);
            assert(drive@ =~= base@.take(2));
            return drive.concat(rel);
        }
        return rel.to_owned();
    }
    let u = unify(base);
    let v = chars_of(u.as_str());
    if v.len() == 0 || v[v.len() - 1] == '/' {
        base.to_owned().concat(rel)
    } else if is_windows(base) {
        base.to_owned().concat("\\").concat(rel)
    } else {
        base.to_owned().concat("/").concat(rel)
    }
}

/// Whether a `/`-separated piece of a path is one of its components.
pub open spec fn is_part(pieces: Seq<Seq<char>>, i: int) -> bool {
    pieces[i].len() > 0 && !(pieces[i] == "."@ && i > 0)
}

/// The position of the last piece that is a component, or -1.
pub open spec fn last_part(pieces: Seq<Seq<char>>) -> int
    decreases pieces.len(),
{
    if pieces.len() == 0 {
        -1
    } else if is_part(pieces, pieces.len() - 1) {
        pieces.len() - 1
    } else {
        last_part(pieces.drop_last())
    }
}

/// The position of the component with this number, counted from piece `i` on,
/// or the number of pieces.
pub open spec fn part_at(pieces: Seq<Seq<char>>, n: int, i: int) -> int
    decreases pieces.len() - i,
{
    if i >= pieces.len() {
        pieces.len() as int
    } else if !is_part(pieces, i) {
        part_at(pieces, n, i + 1)
    } else if n <= 0 {
        i
    } else {
        part_at(pieces, n - 1, i + 1)
    }
}

/// The text of a path from the component with this number to the last one, as
/// it is written.
pub open spec fn written_from(p: Seq<char>, n: int) -> Seq<char> {
    let pieces = split(unified(p), '/');
    let text = joined(pieces.subrange(part_at(pieces, n, 0), last_part(pieces) + 1), "/"@);
    if windows(p) {
        let end = joined(pieces.take(last_part(pieces) + 1), "/"@).len();
        p.subrange(end - text.len(), end as int)
    } else {
        text
    }
}

proof fn lemma_last_part(pieces: Seq<Seq<char>>)
    ensures
        -1 <= last_part(pieces) < pieces.len(),
        last_part(pieces) >= 0 ==> is_part(pieces, last_part(pieces)),
        forall|i: int| last_part(pieces) < i < pieces.len() ==> !#[trigger] is_part(pieces, i),
    decreases pieces.len(),
{
    if pieces.len() > 0 && !is_part(pieces, pieces.len() - 1) {
        let shorter = pieces.drop_last();
        lemma_last_part(shorter);
        assert forall|i: int| last_part(pieces) < i < pieces.len() implies !#[trigger] is_part(
            pieces,
            i,
        ) by {
            if i < shorter.len() {
                assert(is_part(shorter, i) == is_part(pieces, i));
            }
        }
    }
}

proof fn lemma_part_at(pieces: Seq<Seq<char>>, n: int, i: int)
    requires
        0 <= i <= pieces.len(),
        0 <= n < kept(pieces).len() - kept(pieces.take(i)).len(),
    ensures
        i <= part_at(pieces, n, i) < pieces.len(),
        is_part(pieces, part_at(pieces, n, i)),
    decreases pieces.len() - i,
{
    if i == pieces.len() {
        assert(pieces.take(i) =~= pieces);
    } else {
        let next = pieces.take(i + 1);
        assert(next.drop_last() =~= pieces.take(i));
        assert(next.last() == pieces[i]);
        if !is_part(pieces, i) {
            lemma_part_at(pieces, n, i + 1);
        } else if n > 0 {
            lemma_part_at(pieces, n - 1, i + 1);
        }
    }
}

proof fn lemma_no_parts(pieces: Seq<Seq<char>>)
    requires
        last_part(pieces) == -1,
    ensures
        kept(pieces).len() == 0,
    decreases pieces.len(),
{
    if pieces.len() > 0 {
        lemma_last_part(pieces);
        assert(!is_part(pieces, pieces.len() - 1));
        lemma_no_parts(pieces.drop_last());
    }
}

/// Whether a piece of a path is one of its components.
fn part(pieces: &[String], i: usize) -> (r: bool)
    requires
        i < pieces@.len(),
    ensures
        r == is_part(texts(pieces@), i as int),
{
    assert(texts(pieces@)[i as int] == pieces@[i as int]@);
    !pieces[i].as_str().is_empty() && !(same_text(pieces[i].as_str(), ".") && i > 0)
}

/// The position of the last component among the first `n` pieces.
fn find_last_part(pieces: &[String], n: usize) -> (r: Option<usize>)
    requires
        n <= pieces@.len(),
    ensures
        match r {
            Some(k) => k < n && k == last_part(texts(pieces@).take(n as int)),
            None => last_part(texts(pieces@).take(n as int)) == -1,
        },
{
    let ghost all = texts(pieces@);
    let mut k: usize = n;
    while k > 0
        invariant
            all == texts(pieces@),
            k <= n <= pieces@.len(),
            last_part(all.take(k as int)) == last_part(all.take(n as int)),
        decreases k,
    {
        assert(all.take(k as int).drop_last() =~= all.take(k - 1));
        assert(is_part(all.take(k as int), k - 1) == is_part(all, k - 1));
        if part(pieces, k - 1) {
            return Some(k - 1);
        }
        k = k - 1;
    }
    None
}

/// The text of a path from the component with this number to the last one, as
/// it is written.
pub fn text_from(p: &str, n: usize) -> (r: String)
    requires
        n < path_key(p@).parts.len(),
    ensures
        r@ == written_from(p@, n as int),
{
    let u = unify(p);
    let mut pieces = split_on(u.as_str(), '/');
    let ghost all = texts(pieces@);
    proof {
        assert(all.take(0) =~= Seq::<Seq<char>>::empty());
        lemma_part_at(all, n as int, 0);
        lemma_last_part(all);
    }
    let mut from: usize = 0;
    let mut left: usize = n;
    while !part(&pieces, from) || left > 0
        invariant
            all == texts(pieces@),
            from < all.len() == pieces.len(),
            left <= n,
            part_at(all, left as int, from as int) == part_at(all, n as int, 0),
            part_at(all, n as int, 0) < all.len(),
        decreases all.len() - from,
    {
        if part(&pieces, from) {
            left = left - 1;
        }
        assert(part_at(all, left as int, from + 1) == part_at(all, n as int, 0));
        from = from + 1;
    }
    let to: usize = match find_last_part(&pieces, pieces.len()) {
        Some(k) => k + 1,
        None => 0,
    };
    assert(all.take(all.len() as int) =~= all);
    let mut tail: Vec<String> = Vec::new();
    let mut i: usize = from;
    assert(texts(tail@) =~= all.subrange(from as int, from as int));
    while i < to
        invariant
            all == texts(pieces@),
            from <= i <= to <= all.len(),
            texts(tail@) == all.subrange(from as int, i as int),
        decreases to - i,
    {
        let ghost was = texts(tail@);
        tail.push(pieces[i].clone());
        assert(texts(tail@) =~= was.push(all[i as int]));
        assert(all.subrange(from as int, i + 1) =~= all.subrange(from as int, i as int).push(
            all[i as int],
        ));
        i = i + 1;
    }
    let text = join_texts(&tail, "/");
    if !is_windows(p) {
        return text;
    }
    pieces.truncate(to);
    assert(texts(pieces@) =~= all.take(to as int));
    let upto = join_texts(&pieces, "/");
    proof {
        lemma_joined_len(all, from as int, to as int);
        lemma_pieces_len(unified(p@), to as int);
    }
    cut(p, upto.as_str().unicode_len() - text.as_str().unicode_len(), upto.as_str().unicode_len())
}

/// How much of a path stands in front of a piece of it, less the separator.
pub open spec fn length_before(pieces: Seq<Seq<char>>, k: int) -> int {
    joined(pieces.take(k), "/"@).len() as int
}

/// The path without its last component, as it is written; none for the root, the
/// empty path and a drive.
pub open spec fn parent_of(p: Seq<char>) -> Option<Seq<char>> {
    let pieces = split(unified(p), '/');
    let last = last_part(pieces);
    let before = last_part(pieces.take(last));
    if last < 0 || (has_drive(p) && last == 0) {
        None
    } else if has_drive(p) && before == 0 {
        Some(p.take(3))
    } else if before >= 0 {
        if windows(p) {
            Some(p.take(length_before(pieces, before + 1)))
        } else {
            Some(joined(pieces.take(before + 1), "/"@))
        }
    } else if rooted(p) {
        Some(p.take(1))
    } else {
        Some(Seq::empty())
    }
}

/// The path without its last component, as it is written; none for the root, the
/// empty path and a drive.
pub fn parent(p: &str) -> (r: Option<String>)
    ensures
        opt_text(r) == parent_of(p@),
{
    let u = unify(p);
    let mut pieces = split_on(u.as_str(), '/');
    let ghost all = texts(pieces@);
    assert(all.take(all.len() as int) =~= all);
    let drive = starts_with_drive(p);
    let last: usize = match find_last_part(&pieces, pieces.len()) {
        None => {
            return None;
        },
        Some(last) => last,
    };
    if drive && last == 0 {
        return None;
    }
    match find_last_part(&pieces, last) {
        Some(before) => {
            if drive && before == 0 {
                return Some(cut(p, 0, 3));
            }
            pieces.truncate(before + 1);
            assert(texts(pieces@) =~= all.take(before + 1));
            let text = join_texts(&pieces, "/");
            if is_windows(p) {
                proof {
                    lemma_pieces_len(unified(p@), before + 1);
                }
                Some(cut(p, 0, text.as_str().unicode_len()))
            } else {
                Some(text)
            }
        },
        None => if is_rooted(p) {
            Some(cut(p, 0, 1))
        } else {
            Some(String::new())
        },
    }
}

/// The text between two positions.
fn cut(p: &str, from: usize, to: usize) -> (r: String)
    requires
        from <= to <= p@.len(),
    ensures
        r@ == p@.subrange(from as int, to as int),
        from == 0 ==> r@ == p@.take(to as int),
{
    let v = chars_of(p);
    let r = string_of(&v, from, to);
    assert(from == 0 ==> r@ =~= p@.take(to as int));
    r
}

proof fn lemma_joined_push(parts: Seq<Seq<char>>, last: Seq<char>)
    ensures
        joined(parts.push(last), "/"@) == (if parts.len() == 0 {
            last
        } else {
            joined(parts, "/"@) + "/"@ + last
        }),
{
    assert(parts.push(last).drop_last() =~= parts);
}

/// Joining the pieces of a path gives the path.
proof fn lemma_joined_split(s: Seq<char>)
    ensures
        split(s, '/').len() > 0,
        joined(split(s, '/'), "/"@) == s,
    decreases s.len(),
{
    reveal_strlit("/");
    if s.len() > 0 {
        let front = split(s.drop_last(), '/');
        lemma_joined_split(s.drop_last());
        let shorter = s.drop_last();
        assert(shorter.push(s.last()) =~= s);
        if s.last() == '/' {
            lemma_joined_push(front, Seq::empty());
            assert(joined(split(s, '/'), "/"@) == shorter + "/"@ + Seq::<char>::empty());
        } else {
            let head = front.drop_last();
            let tail = front.last();
            assert(head.push(tail) =~= front);
            lemma_joined_push(head, tail);
            lemma_joined_push(head, tail.push(s.last()));
            if head.len() > 0 {
                assert(joined(head, "/"@) + "/"@ + tail.push(s.last()) =~= (joined(head, "/"@)
                    + "/"@ + tail).push(s.last()));
            }
        }
        assert(joined(split(s, '/'), "/"@) =~= s);
    } else {
        assert(s =~= Seq::<char>::empty());
    }
}

proof fn lemma_joined_grows(parts: Seq<Seq<char>>, k: int)
    requires
        0 <= k <= parts.len(),
    ensures
        joined(parts.take(k), "/"@).len() <= joined(parts, "/"@).len(),
    decreases parts.len() - k,
{
    if k == parts.len() {
        assert(parts.take(k) =~= parts);
    } else {
        lemma_joined_grows(parts, k + 1);
        assert(parts.take(k + 1) =~= parts.take(k).push(parts[k]));
        lemma_joined_push(parts.take(k), parts[k]);
    }
}

/// The first pieces of a path are no longer than the path.
proof fn lemma_pieces_len(s: Seq<char>, k: int)
    requires
        0 <= k <= split(s, '/').len(),
    ensures
        joined(split(s, '/').take(k), "/"@).len() <= s.len(),
{
    lemma_joined_split(s);
    lemma_joined_grows(split(s, '/'), k);
}

/// Some of the pieces are no longer than all up to the last of them.
proof fn lemma_joined_len(parts: Seq<Seq<char>>, from: int, to: int)
    requires
        0 <= from <= to <= parts.len(),
    ensures
        joined(parts.subrange(from, to), "/"@).len() <= joined(parts.take(to), "/"@).len(),
    decreases to - from,
{
    if from < to {
        lemma_joined_len(parts, from, to - 1);
        assert(parts.subrange(from, to) =~= parts.subrange(from, to - 1).push(parts[to - 1]));
        assert(parts.take(to) =~= parts.take(to - 1).push(parts[to - 1]));
        lemma_joined_push(parts.subrange(from, to - 1), parts[to - 1]);
        lemma_joined_push(parts.take(to - 1), parts[to - 1]);
    } else {
        assert(parts.subrange(from, to) =~= Seq::<Seq<char>>::empty());
    }
}

/// The last component, where it is a name and not a drive, `.` or `..`.
pub open spec fn file_name_of(p: Seq<char>) -> Option<Seq<char>> {
    let parts = path_key(p).parts;
    if parts.len() == 0 || (has_drive(p) && parts.len() == 1) || parts.last() == "."@
        || parts.last() == ".."@ {
        None
    } else {
        Some(parts.last())
    }
}

/// The last component, where it is a name and not a drive, `.` or `..`.
pub fn file_name(p: &str) -> (r: Option<String>)
    ensures
        opt_text(r) == file_name_of(p@),
{
    let mut parts = components(p);
    let ghost all = texts(parts@);
    match parts.pop() {
        None => None,
        Some(last) => {
            assert(all.last() == last@);
            if (starts_with_drive(p) && parts.len() == 0) || same_text(last.as_str(), ".")
                || same_text(last.as_str(), "..") {
                None
            } else {
                Some(last)
            }
        },
    }
}

/// The position of the last `.` in a file name that has text before it, or
/// the length of the name.
pub open spec fn last_dot(name: Seq<char>) -> int
    decreases name.len(),
{
    if name.len() <= 1 {
        name.len() as int
    } else if name.last() == '.' {
        name.len() - 1
    } else {
        let d = last_dot(name.drop_last());
        if d == name.len() - 1 {
            name.len() as int
        } else {
            d
        }
    }
}

proof fn lemma_last_dot(name: Seq<char>)
    ensures
        0 <= last_dot(name) <= name.len(),
    decreases name.len(),
{
    if name.len() > 1 {
        lemma_last_dot(name.drop_last());
    }
}

/// A file name without its extension.
pub open spec fn stem_of(name: Seq<char>) -> Seq<char> {
    name.take(last_dot(name))
}

/// A file name without its extension.
pub fn stem(name: &str) -> (r: String)
    ensures
        r@ == stem_of(name@),
{
    let v = chars_of(name);
    let mut i: usize = v.len();
    assert(v@.take(i as int) =~= v@);
    while i > 1
        invariant
            v@ == name@,
            i <= v@.len(),
            last_dot(v@) == (if last_dot(v@.take(i as int)) == i {
                v@.len() as int
            } else {
                last_dot(v@.take(i as int))
            }),
        decreases i,
    {
        assert(v@.take(i as int).drop_last() =~= v@.take(i - 1));
        proof {
            lemma_last_dot(v@.take(i - 1));
        }
        if v[i - 1] == '.' {
            let r = string_of(&v, 0, i - 1);
            assert(r@ =~= stem_of(name@));
            return r;
        }
        i = i - 1;
    }
    let r = name.to_owned();
    assert(r@ =~= stem_of(name@));
    r
}

/// The path with the extension of its file name replaced; a path without a
/// file name is kept.
pub open spec fn extension_replaced(p: Seq<char>, ext: Seq<char>) -> Seq<char> {
    let pieces = split(unified(p), '/');
    let last = last_part(pieces);
    match file_name_of(p) {
        Some(name) => {
            let file = stem_of(name) + "."@ + ext;
            if windows(p) && last > 0 {
                p.take(length_before(pieces, last) + 1) + file
            } else {
                joined(pieces.take(last).push(file), "/"@)
            }
        },
        None => p,
    }
}

/// The path with the extension of its file name replaced; a path without a
/// file name is kept.
pub fn with_extension(p: &str, ext: &str) -> (r: String)
    ensures
        r@ == extension_replaced(p@, ext@),
{
    let u = unify(p);
    let mut pieces = split_on(u.as_str(), '/');
    let ghost all = texts(pieces@);
    assert(all.take(all.len() as int) =~= all);
    match (file_name(p), find_last_part(&pieces, pieces.len())) {
        (Some(name), Some(last)) => {
            let file = stem(name.as_str()).concat(".").concat(ext);
            pieces.truncate(last);
            assert(texts(pieces@) =~= all.take(last as int));
            if is_windows(p) && last > 0 {
                let before = join_texts(&pieces, "/");
                proof {
                    reveal_strlit("/");
                    lemma_pieces_len(unified(p@), last + 1);
                    assert(all.take(last + 1) =~= all.take(last as int).push(all[last as int]));
                    lemma_joined_push(all.take(last as int), all[last as int]);
                }
                let whole: usize = p.unicode_len();
                assert(before@.len() + 1 <= whole);
                return cut(p, 0, before.as_str().unicode_len() + 1).concat(file.as_str());
            }
            let ghost f = file@;
            pieces.push(file);
            assert(texts(pieces@) =~= all.take(last as int).push(f));
            join_texts(&pieces, "/")
        },
        (Some(_), None) => {
            proof {
                lemma_no_parts(all);
            }
            p.to_owned()
        },
        (None, _) => p.to_owned(),
    }
}

/// The components of a path, without the `.` that opens a relative one.
pub open spec fn steps(p: Seq<char>) -> Seq<Seq<char>> {
    let parts = path_key(p).parts;
    if parts.len() > 0 && parts[0] == "."@ {
        parts.skip(1)
    } else {
        parts
    }
}

/// Whether a path ends with the steps of another.
pub open spec fn ends_with_steps(path: Seq<char>, tail: Seq<char>) -> bool {
    let parts = path_key(path).parts;
    let n = steps(tail).len();
    n <= parts.len() && parts.skip(parts.len() - n) == steps(tail)
}

/// Whether a path does not depend on the working directory.
pub open spec fn absolute_text(p: Seq<char>) -> bool {
    windows(p) || rooted(p)
}

/// `a` is the absolute form of `p`: the same path where that starts at the
/// root, and one that ends with it where it does not. Where one of them is a path
/// of Windows, it is only said that `a` is absolute.
pub open spec fn absolute_form(p: Seq<char>, a: Seq<char>) -> bool {
    &&& absolute_text(a)
    &&& !windows(a) && !windows(p) ==> if rooted(p) {
        path_key(a) == path_key(p)
    } else {
        ends_with_steps(a, p)
    }
}

/// `std::path::absolute`: the path made absolute against the working
/// directory, if that can be done. A path that starts at the root keeps its
/// components, and the working directory comes before those of any other. Of
/// paths of Windows only the form of an absolute path is claimed.
#[verifier::external_body]
pub(crate) fn absolute(path: &str) -> (r: Option<String>)
    ensures
        match r {
            Some(a) => absolute_form(path@, a@),
            None => true,
        },
{
    std::path::absolute(path).ok().map(|p| p.to_string_lossy().into_owned())
}

/// `r` is the absolute form of `p`, or `p` itself where there is none.
pub open spec fn made_absolute(p: Seq<char>, r: Seq<char>) -> bool {
    r == p || absolute_form(p, r)
}

/// The absolute form of a path, or the path itself where there is none.
pub fn absolute_path(path: &str) -> (r: String)
    ensures
        made_absolute(path@, r@),
{
    match absolute(path) {
        Some(a) => a,
        None => path.to_owned(),
    }
}

/// A path that starts at the root still names the same path once it was made
/// absolute, unless it or what it was made into is a path of Windows.
pub proof fn law_absolute_paths_stay(p: Seq<char>, r: Seq<char>)
    requires
        rooted(p),
        made_absolute(p, r),
    ensures
        path_key(r) == path_key(p) || windows(p) || windows(r),
{
}

/// In a path of Windows the two spellings of the separator name the same path.
pub proof fn law_separators_of_windows(p: Seq<char>, q: Seq<char>)
    requires
        windows(p),
        windows(q),
        unified(p) == unified(q),
    ensures
        path_key(p) == path_key(q),
        file_name_of(p) == file_name_of(q),
{
    assert forall|s: Seq<char>| #[trigger] windows(s) implies has_drive(s) == (unified(s)[0]
        != '/') by {}
}

/// A name that stands as a component of a path: some text without a separator that
/// is not `.`.
pub open spec fn plain_part(s: Seq<char>) -> bool {
    s.len() > 0 && !s.contains('/') && s != "."@
}

/// Every one of them is a name that stands as a component.
pub open spec fn plain_parts(parts: Seq<Seq<char>>) -> bool {
    forall|i: int| 0 <= i < parts.len() ==> plain_part(#[trigger] parts[i])
}

/// The path from the root through these components.
pub open spec fn from_root(parts: Seq<Seq<char>>) -> Seq<char> {
    "/"@ + joined(parts, "/"@)
}

proof fn lemma_kept_all(parts: Seq<Seq<char>>)
    requires
        plain_parts(parts),
    ensures
        kept(parts) == parts,
    decreases parts.len(),
{
    if parts.len() > 0 {
        let front = parts.drop_last();
        assert forall|i: int| 0 <= i < front.len() implies plain_part(#[trigger] front[i]) by {
            assert(front[i] == parts[i]);
        }
        lemma_kept_all(front);
        assert(plain_part(parts[parts.len() - 1]));
        assert(front.push(parts.last()) =~= parts);
    } else {
        assert(parts =~= Seq::empty());
    }
}

/// Behind other pieces, the components of some pieces are those that they have
/// behind an empty one.
proof fn lemma_kept_behind(a: Seq<Seq<char>>, b: Seq<Seq<char>>)
    requires
        a.len() > 0,
    ensures
        kept(a + b) == kept(a) + kept(seq![Seq::<char>::empty()] + b),
    decreases b.len(),
{
    let e = seq![Seq::<char>::empty()];
    if b.len() == 0 {
        assert(a + b =~= a);
        assert(e + b =~= e);
        assert(kept(e.drop_last()) =~= Seq::empty());
        assert(kept(e) =~= Seq::empty());
        assert(kept(a) + kept(e) =~= kept(a));
    } else {
        lemma_kept_behind(a, b.drop_last());
        assert((a + b).drop_last() =~= a + b.drop_last());
        assert((e + b).drop_last() =~= e + b.drop_last());
        assert((a + b).last() == b.last() && (e + b).last() == b.last());
        assert(kept(a + b) =~= kept(a) + kept(e + b));
    }
}

/// Without a `.` in front, pieces have the same components behind an empty one.
proof fn lemma_kept_behind_empty(b: Seq<Seq<char>>)
    requires
        b.len() > 0,
        b[0] != "."@,
    ensures
        kept(seq![Seq::<char>::empty()] + b) == kept(b),
    decreases b.len(),
{
    let e = seq![Seq::<char>::empty()];
    assert(kept(e.drop_last()) =~= Seq::empty());
    assert((e + b).drop_last() =~= e + b.drop_last());
    if b.len() > 1 {
        lemma_kept_behind_empty(b.drop_last());
    } else {
        assert(e + b.drop_last() =~= e);
        assert(kept(e) =~= Seq::empty());
        assert(kept(b.drop_last()) =~= Seq::empty());
        assert(b.last() == b[0]);
    }
    assert((e + b).last() == b.last());
}

proof fn lemma_from_root(parts: Seq<Seq<char>>)
    requires
        plain_parts(parts),
    ensures
        !windows(from_root(parts)),
        rooted(from_root(parts)),
        parts.len() > 0 ==> split(from_root(parts), '/') == seq![Seq::<char>::empty()] + parts,
        path_key(from_root(parts)).parts == parts,
        parts.len() > 0 ==> joined(seq![Seq::<char>::empty()] + parts, "/"@) == from_root(parts),
{
    reveal_strlit("/");
    let e = seq![Seq::<char>::empty()];
    let text = from_root(parts);
    assert(text[0] == '/');
    let none = Seq::<char>::empty();
    if parts.len() > 0 {
        assert("/"@ =~= seq!['/']);
        assert forall|i: int| 0 <= i < parts.len() implies !(#[trigger] parts[i]).contains('/') by {
            assert(plain_part(parts[i]));
        }
        law_joined_parts(parts, '/');
        let rest = joined(parts, "/"@);
        assert(text =~= none.push('/') + rest);
        lemma_split_at(none, '/', rest);
        assert(split(none, '/') =~= e);
        lemma_kept_all(parts);
        reveal_strlit(".");
        assert(plain_part(parts[0]));
        lemma_kept_behind_empty(parts);
        law_split_pieces(text, '/');
    } else {
        assert(text =~= none.push('/') + none);
        lemma_split_at(none, '/', none);
        assert(split(none, '/') =~= e);
        assert(split(text, '/') =~= e + e);
        lemma_kept_behind(e, e);
        assert(kept(e.drop_last()) =~= Seq::empty());
        assert(kept(e) =~= Seq::empty());
        lemma_kept_behind(e, Seq::empty());
        assert((e + e).drop_last() =~= e);
        assert(kept(e + e) =~= Seq::empty());
        assert(parts =~= Seq::empty());
    }
}

/// A path from the root has the components that it is made of, in order.
pub proof fn law_components(parts: Seq<Seq<char>>)
    requires
        plain_parts(parts),
    ensures
        path_key(from_root(parts)) == (PathKey { rooted: true, parts }),
{
    lemma_from_root(parts);
}

/// A path that does not start at the root has the components that it is made of, in
/// order.
pub proof fn law_components_of_a_relative_path(parts: Seq<Seq<char>>)
    requires
        parts.len() > 0,
        plain_parts(parts),
        !windows(joined(parts, "/"@)),
    ensures
        path_key(joined(parts, "/"@)) == (PathKey { rooted: false, parts }),
{
    reveal_strlit("/");
    assert("/"@ =~= seq!['/']);
    assert forall|i: int| 0 <= i < parts.len() implies !(#[trigger] parts[i]).contains('/') by {
        assert(plain_part(parts[i]));
    }
    law_joined_parts(parts, '/');
    lemma_kept_all(parts);
    let text = joined(parts, "/"@);
    if text.len() > 0 && text[0] == '/' {
        assert(plain_part(parts[0]));
        lemma_joined_starts(parts);
        assert(parts[0].contains(parts[0][0]));
    }
}

proof fn lemma_joined_starts(parts: Seq<Seq<char>>)
    requires
        parts.len() > 0,
        parts[0].len() > 0,
    ensures
        joined(parts, "/"@).len() > 0,
        joined(parts, "/"@)[0] == parts[0][0],
    decreases parts.len(),
{
    if parts.len() > 1 {
        assert(parts.drop_last()[0] == parts[0]);
        lemma_joined_starts(parts.drop_last());
    }
}

/// A separator more at the end of a path makes no other path of it, nor does a `.`
/// there, nor a separator or a `.` more between its components.
pub proof fn law_spellings_of_a_path(p: Seq<char>, rest: Seq<char>)
    requires
        p.len() > 0,
        !windows(p),
        !windows(p + "/"@ + rest),
        !windows(p + "//"@ + rest),
        !windows(p + "/./"@ + rest),
    ensures
        path_key(p + "//"@ + rest) == path_key(p + "/"@ + rest),
        path_key(p + "/./"@ + rest) == path_key(p + "/"@ + rest),
        rest.len() == 0 ==> path_key(p + "/"@ + rest) == path_key(p),
{
    reveal_strlit("/");
    reveal_strlit("//");
    reveal_strlit("/./");
    reveal_strlit(".");
    let e = seq![Seq::<char>::empty()];
    let one = p + "/"@ + rest;
    let two = p + "//"@ + rest;
    let three = p + "/./"@ + rest;
    assert(one[0] == p[0] && two[0] == p[0] && three[0] == p[0]);
    let a = split(p, '/');
    let b = split(rest, '/');
    law_split_pieces(p, '/');
    assert(one =~= p.push('/') + rest);
    lemma_split_at(p, '/', rest);
    assert("//"@[0] == '/' && "//"@[1] == '/');
    assert(two =~= p.push('/').push('/') + rest);
    lemma_split_at(p.push('/'), '/', rest);
    assert(p.push('/').drop_last() =~= p);
    let empty_last = a.push(Seq::empty());
    assert(split(p.push('/'), '/') == empty_last);
    lemma_kept_behind(a, b);
    lemma_kept_behind(empty_last, b);
    assert(empty_last.drop_last() =~= a);
    assert(kept(empty_last) == kept(a));
    assert("/./"@[0] == '/' && "/./"@[1] == '.' && "/./"@[2] == '/');
    let q = p.push('/').push('.');
    assert(three =~= q.push('/') + rest);
    lemma_split_at(q, '/', rest);
    assert(q.drop_last() =~= p.push('/'));
    let dot = empty_last.drop_last().push(Seq::<char>::empty().push('.'));
    assert(split(q, '/') == dot);
    assert(dot.drop_last() =~= a);
    assert(Seq::<char>::empty().push('.') =~= "."@);
    assert(kept(dot) == kept(a));
    lemma_kept_behind(dot, b);
    if rest.len() == 0 {
        assert(one =~= p.push('/'));
    }
}

/// A relative path taken from a directory has the components of the directory and
/// then its own, and starts at the root where the directory does.
pub proof fn law_join_goes_below(base: Seq<char>, rel: Seq<char>)
    requires
        base.len() > 0,
        rel.len() > 0,
        !windows(rel),
        !rooted(rel),
        !rel.contains('\\'),
        split(rel, '/')[0] != "."@,
        windows(path_join(base, rel)) == windows(base),
    ensures
        path_key(path_join(base, rel)) == (PathKey {
            rooted: path_key(base).rooted,
            parts: path_key(base).parts + path_key(rel).parts,
        }),
{
    reveal_strlit("/");
    reveal_strlit("\\");
    let whole = path_join(base, rel);
    let u = unified(base);
    assert(u.len() == base.len());
    law_split_pieces(u, '/');
    law_split_pieces(rel, '/');
    let b = split(rel, '/');
    lemma_kept_behind_empty(b);
    assert(u[0] == unified(whole)[0]);
    assert forall|i: int| 0 <= i < rel.len() implies rel[i] != '\\' by {
        assert(rel.contains(rel[i]));
    }
    if u.last() == '/' {
        let front = u.drop_last();
        assert(front.push('/') =~= u);
        assert(unified(whole) =~= u + rel);
        lemma_split_at(front, '/', rel);
        law_split_pieces(front, '/');
        let a = split(front, '/');
        lemma_kept_behind(a, b);
        assert(split(u, '/') =~= a.push(Seq::empty()));
        assert(a.push(Seq::<char>::empty()).drop_last() =~= a);
        assert(kept(split(u, '/')) == kept(a));
    } else {
        assert(unified(whole) =~= u.push('/') + rel);
        lemma_split_at(u, '/', rel);
        lemma_kept_behind(split(u, '/'), b);
    }
}

/// A path that stands by itself is not taken from a directory: it is the outcome,
/// with at most a drive in front.
pub proof fn law_rooted_paths_stand_alone(base: Seq<char>, p: Seq<char>)
    requires
        rooted(p) || windows(p),
    ensures
        !has_drive(base) || windows(p) ==> path_join(base, p) == p,
        has_drive(base) && !windows(p) ==> path_join(base, p).len() == p.len() + 2 && path_join(
            base,
            p,
        ).skip(2) == p && path_join(base, p)[0] == base[0] && path_join(base, p)[1] == ':',
{
    if has_drive(base) && !windows(p) {
        assert(path_join(base, p).skip(2) =~= p);
    }
}

proof fn lemma_last_part_of(pieces: Seq<Seq<char>>)
    requires
        pieces.len() > 0,
        is_part(pieces, pieces.len() - 1),
    ensures
        last_part(pieces) == pieces.len() - 1,
{
}

proof fn lemma_pieces_of(parts: Seq<Seq<char>>, k: int)
    requires
        plain_parts(parts),
        0 <= k <= parts.len(),
    ensures
        last_part((seq![Seq::<char>::empty()] + parts).take(k + 1)) == (if k == 0 {
            -1
        } else {
            k
        }),
{
    let pieces = (seq![Seq::<char>::empty()] + parts).take(k + 1);
    if k > 0 {
        assert(pieces[k] == parts[k - 1]);
        assert(plain_part(parts[k - 1]));
        lemma_last_part_of(pieces);
    } else {
        assert(!is_part(pieces, 0));
        assert(pieces.drop_last().len() == 0);
        assert(last_part(pieces.drop_last()) == -1);
    }
}

/// The parent of a path from the root, and its file name, are what it was made of;
/// taking the name from the parent gives the path back.
pub proof fn law_parent_and_file_name(parts: Seq<Seq<char>>, name: Seq<char>)
    requires
        plain_parts(parts),
        plain_part(name),
    ensures
        parent_of(from_root(parts.push(name))) == Some(from_root(parts)),
        name != ".."@ ==> file_name_of(from_root(parts.push(name))) == Some(name),
        !windows(name) ==> path_join(from_root(parts), name) == from_root(parts.push(name)),
        parent_of("/"@) is None,
        parent_of(Seq::empty()) is None,
{
    reveal_strlit("/");
    let e = seq![Seq::<char>::empty()];
    let whole = parts.push(name);
    let text = from_root(whole);
    assert forall|i: int| 0 <= i < whole.len() implies plain_part(#[trigger] whole[i]) by {
        if i < parts.len() {
            assert(whole[i] == parts[i]);
        }
    }
    lemma_from_root(whole);
    lemma_from_root(parts);
    assert(text[0] == '/');
    let pieces = e + whole;
    let n = parts.len() as int;
    lemma_pieces_of(whole, n + 1);
    assert(pieces.take(n + 2) =~= pieces);
    lemma_pieces_of(whole, n);
    assert(pieces.take(n + 1) =~= e + parts);
    if n == 0 {
        assert(text.take(1) =~= "/"@ + joined(parts, "/"@));
    }
    assert(whole.drop_last() =~= parts);
    assert(whole.last() == name);
    let root = Seq::<Seq<char>>::empty();
    assert(from_root(root) =~= "/"@);
    let none = Seq::<char>::empty();
    assert("/"@ =~= none.push('/') + none);
    lemma_split_at(none, '/', none);
    assert(split(none, '/') =~= e);
    lemma_pieces_of(root, 0);
    assert((e + root).take(1) =~= e);
    assert((e + e).drop_last() =~= e);
    assert(!is_part(e + e, 1));
    assert(last_part(e + e) == -1);
    lemma_join_name(parts, name);
}

proof fn lemma_join_name(parts: Seq<Seq<char>>, name: Seq<char>)
    requires
        plain_parts(parts),
        plain_part(name),
    ensures
        !windows(name) ==> path_join(from_root(parts), name) == from_root(parts.push(name)),
{
    reveal_strlit("/");
    let base = from_root(parts);
    let whole = parts.push(name);
    assert(base[0] == '/');
    lemma_from_root(parts);
    assert(whole.drop_last() =~= parts);
    assert(!rooted(name) || windows(name)) by {
        assert(name.contains(name[0]));
    }
    if parts.len() == 0 {
        assert(base =~= "/"@);
        assert(from_root(whole) =~= base + name);
    } else {
        assert(plain_part(parts[parts.len() - 1]));
        lemma_joined_ends(parts);
        let last = parts.last();
        assert(base.last() == joined(parts, "/"@).last());
        assert(last.contains(last[last.len() - 1]));
        assert(from_root(whole) =~= base + "/"@ + name);
    }
}

proof fn lemma_joined_ends(parts: Seq<Seq<char>>)
    requires
        parts.len() > 0,
        parts.last().len() > 0,
    ensures
        joined(parts, "/"@).len() > 0,
        joined(parts, "/"@).last() == parts.last().last(),
{
}

/// A file name is its stem, a dot and its extension: what stands behind the last dot
/// is the extension, and a dot at the very front begins none.
pub proof fn law_stem(stem: Seq<char>, ext: Seq<char>)
    requires
        stem.len() > 0,
        !ext.contains('.'),
    ensures
        stem_of(stem + "."@ + ext) == stem,
        stem_of("."@ + ext) == "."@ + ext,
        stem_of(ext) == ext,
{
    reveal_strlit(".");
    lemma_dots(stem, ext);
    assert((stem + "."@ + ext).take(stem.len() as int) =~= stem);
    lemma_no_dot(ext);
    lemma_leading_dot(ext);
    assert(("."@ + ext).take(("."@ + ext).len() as int) =~= "."@ + ext);
    assert(ext.take(ext.len() as int) =~= ext);
}

proof fn lemma_no_dot(s: Seq<char>)
    requires
        !s.contains('.'),
    ensures
        last_dot(s) == s.len(),
    decreases s.len(),
{
    if s.len() > 1 {
        assert(s.contains(s[s.len() - 1]));
        let front = s.drop_last();
        assert forall|i: int| 0 <= i < front.len() implies front[i] != '.' by {
            assert(s.contains(s[i]));
        }
        lemma_no_dot(front);
    }
}

proof fn lemma_leading_dot(s: Seq<char>)
    requires
        !s.contains('.'),
    ensures
        last_dot("."@ + s) == s.len() + 1,
    decreases s.len(),
{
    reveal_strlit(".");
    let whole = "."@ + s;
    if s.len() > 0 {
        assert(s.contains(s[s.len() - 1]));
        let front = s.drop_last();
        assert forall|i: int| 0 <= i < front.len() implies front[i] != '.' by {
            assert(s.contains(s[i]));
        }
        lemma_leading_dot(front);
        assert(whole.drop_last() =~= "."@ + front);
        assert(whole.last() == s.last());
    }
}

proof fn lemma_dots(stem: Seq<char>, ext: Seq<char>)
    requires
        stem.len() > 0,
        !ext.contains('.'),
    ensures
        last_dot(stem + "."@ + ext) == stem.len(),
    decreases ext.len(),
{
    reveal_strlit(".");
    let whole = stem + "."@ + ext;
    if ext.len() > 0 {
        assert(ext.contains(ext[ext.len() - 1]));
        let front = ext.drop_last();
        assert forall|i: int| 0 <= i < front.len() implies front[i] != '.' by {
            assert(ext.contains(ext[i]));
        }
        lemma_dots(stem, front);
        assert(whole.drop_last() =~= stem + "."@ + front);
        assert(whole.last() == ext.last());
    } else {
        assert(whole.last() == '.');
    }
}

/// Replacing the extension of a file keeps its directory and its stem: the old
/// extension goes, and a file without one gets the new one.
pub proof fn law_extension(
    parts: Seq<Seq<char>>,
    stem: Seq<char>,
    old_ext: Seq<char>,
    ext: Seq<char>,
)
    requires
        plain_parts(parts),
        stem.len() > 0,
        !stem.contains('/'),
        !old_ext.contains('/'),
        !old_ext.contains('.'),
        stem != "."@ || old_ext.len() > 0,
    ensures
        extension_replaced(from_root(parts.push(stem + "."@ + old_ext)), ext) == from_root(
            parts.push(stem + "."@ + ext),
        ),
        !stem.contains('.') ==> extension_replaced(from_root(parts.push(stem)), ext) == from_root(
            parts.push(stem + "."@ + ext),
        ),
{
    reveal_strlit(".");
    reveal_strlit("..");
    reveal_strlit("/");
    let name = stem + "."@ + old_ext;
    law_stem(stem, old_ext);
    assert(!name.contains('/')) by {
        assert forall|i: int| 0 <= i < name.len() implies name[i] != '/' by {
            if i < stem.len() {
                assert(stem.contains(stem[i]));
            } else if i > stem.len() {
                assert(old_ext.contains(old_ext[i - stem.len() - 1]));
            }
        }
    }
    if name == ".."@ {
        assert(stem =~= "."@) by {
            assert(".."@[0] == '.' && ".."@[1] == '.');
            if stem.len() == 1 {
                assert(stem[0] == name[0]);
            }
            assert(name.len() == stem.len() + 1 + old_ext.len());
        }
        assert(old_ext.len() == 0);
    }
    lemma_replaced(parts, name, ext);
    if !stem.contains('.') {
        law_stem(stem, stem);
        if stem == "."@ || stem == ".."@ {
            assert(".."@[0] == '.' && "."@[0] == '.');
            assert(stem[0] == '.');
        }
        lemma_replaced(parts, stem, ext);
    }
}

proof fn lemma_replaced(parts: Seq<Seq<char>>, name: Seq<char>, ext: Seq<char>)
    requires
        plain_parts(parts),
        plain_part(name),
        name != ".."@,
    ensures
        extension_replaced(from_root(parts.push(name)), ext) == from_root(
            parts.push(stem_of(name) + "."@ + ext),
        ),
{
    reveal_strlit("/");
    reveal_strlit(".");
    let e = seq![Seq::<char>::empty()];
    let whole = parts.push(name);
    assert forall|i: int| 0 <= i < whole.len() implies plain_part(#[trigger] whole[i]) by {
        if i < parts.len() {
            assert(whole[i] == parts[i]);
        }
    }
    lemma_from_root(whole);
    law_parent_and_file_name(parts, name);
    let n = parts.len() as int;
    let pieces = e + whole;
    lemma_pieces_of(whole, n + 1);
    assert(pieces.take(n + 2) =~= pieces);
    let file = stem_of(name) + "."@ + ext;
    assert(pieces.take(n + 1).push(file) =~= (e + parts).push(file));
    lemma_joined_push(e + parts, file);
    lemma_joined_push(parts, file);
    lemma_from_root(parts);
    if n > 0 {
        assert(joined((e + parts).push(file), "/"@) =~= from_root(parts.push(file)));
    } else {
        assert(e + parts =~= e);
        assert(joined(e, "/"@) =~= Seq::empty());
        assert(joined((e + parts).push(file), "/"@) =~= from_root(parts.push(file)));
    }
}

/// The text of a path from one of its components on is that component and those
/// behind it.
pub proof fn law_written_from(parts: Seq<Seq<char>>, n: int)
    requires
        plain_parts(parts),
        0 <= n < parts.len(),
    ensures
        written_from(from_root(parts), n) == joined(parts.skip(n), "/"@),
{
    let e = seq![Seq::<char>::empty()];
    lemma_from_root(parts);
    let pieces = e + parts;
    lemma_pieces_of(parts, parts.len() as int);
    assert(pieces.take(parts.len() as int + 1) =~= pieces);
    assert(!is_part(pieces, 0));
    lemma_part_at_of(parts, n, 1);
    assert(pieces.subrange(n + 1, parts.len() as int + 1) =~= parts.skip(n));
}

proof fn lemma_part_at_of(parts: Seq<Seq<char>>, n: int, i: int)
    requires
        plain_parts(parts),
        1 <= i,
        0 <= n,
        n + i <= parts.len(),
    ensures
        part_at(seq![Seq::<char>::empty()] + parts, n, i) == n + i,
    decreases n,
{
    let pieces = seq![Seq::<char>::empty()] + parts;
    assert(pieces[i] == parts[i - 1]);
    assert(plain_part(parts[i - 1]));
    if n > 0 {
        lemma_part_at_of(parts, n - 1, i + 1);
    }
}

/// A path ends with the steps of a relative one exactly when its last components are
/// those of the other.
pub proof fn law_steps_at_the_end(path: Seq<Seq<char>>, tail: Seq<Seq<char>>)
    requires
        plain_parts(path),
        tail.len() > 0,
        plain_parts(tail),
        !windows(joined(tail, "/"@)),
    ensures
        ends_with_steps(from_root(path), joined(tail, "/"@)) == (tail.len() <= path.len()
            && path.skip(path.len() - tail.len()) == tail),
{
    law_components(path);
    law_components_of_a_relative_path(tail);
    assert(plain_part(tail[0]));
}

/// A path is one of Windows exactly when it begins with a letter, a colon and a
/// separator, or with two backslashes.
pub proof fn law_paths_of_windows(c: char, d: char, rest: Seq<char>)
    ensures
        windows(seq![c, ':', d] + rest) == (('a' <= c <= 'z' || 'A' <= c <= 'Z') && (d == '/' || d
            == '\\')),
        windows(seq!['\\', '\\'] + rest),
        !windows(seq!['/'] + rest),
        c != ':' && c != '\\' ==> !windows(seq![d, c] + rest),
        !windows(seq![c]),
        !windows(Seq::empty()),
{
    let a = seq![c, ':', d] + rest;
    assert(a[0] == c && a[1] == ':' && a[2] == d);
    let b = seq!['\\', '\\'] + rest;
    assert(b[0] == '\\' && b[1] == '\\');
    assert((seq!['/'] + rest)[0] == '/');
    let e = seq![d, c] + rest;
    assert(e[1] == c);
}

/// The path on a drive through these components.
pub open spec fn on_drive(c: char, parts: Seq<Seq<char>>) -> Seq<char> {
    seq![c, ':', '\\'] + joined(parts, "\\"@)
}

/// Every one of them is a name that stands as a component in a path of Windows.
pub open spec fn windows_parts(parts: Seq<Seq<char>>) -> bool {
    plain_parts(parts) && forall|i: int|
        0 <= i < parts.len() ==> !(#[trigger] parts[i]).contains('\\')
}

spec fn turned(s: Seq<char>) -> Seq<char> {
    s.map_values(
        |c: char|
            if c == '\\' {
                '/'
            } else {
                c
            },
    )
}

proof fn lemma_turned(parts: Seq<Seq<char>>)
    requires
        windows_parts(parts),
    ensures
        turned(joined(parts, "\\"@)) == joined(parts, "/"@),
        joined(parts, "\\"@).len() == joined(parts, "/"@).len(),
    decreases parts.len(),
{
    reveal_strlit("/");
    reveal_strlit("\\");
    assert("\\"@[0] == '\\' && "/"@[0] == '/');
    if parts.len() == 0 {
        assert(turned(Seq::empty()) =~= Seq::empty());
    } else {
        let last = parts.last();
        assert(parts[parts.len() - 1] == last);
        assert forall|i: int| 0 <= i < last.len() implies last[i] != '\\' by {
            assert(last.contains(last[i]));
        }
        assert(turned(last) =~= last);
        if parts.len() > 1 {
            let front = parts.drop_last();
            assert forall|i: int| 0 <= i < front.len() implies plain_part(#[trigger] front[i])
                && !front[i].contains('\\') by {
                assert(front[i] == parts[i]);
                assert(plain_part(parts[i]));
            }
            lemma_turned(front);
            assert(turned(joined(parts, "\\"@)) =~= turned(joined(front, "\\"@)) + "/"@ + last);
        }
    }
}

proof fn lemma_on_drive(c: char, parts: Seq<Seq<char>>)
    requires
        'a' <= c <= 'z' || 'A' <= c <= 'Z',
        windows_parts(parts),
    ensures
        has_drive(on_drive(c, parts)),
        !rooted(on_drive(c, parts)),
        unified(on_drive(c, parts)) == seq![c, ':', '/'] + joined(parts, "/"@),
        parts.len() > 0 ==> split(unified(on_drive(c, parts)), '/') == seq![seq![c, ':']] + parts,
        parts.len() == 0 ==> split(unified(on_drive(c, parts)), '/') == seq![
            seq![c, ':'],
            Seq::empty(),
        ],
        path_key(on_drive(c, parts)).parts == seq![seq![c, ':']] + parts,
{
    reveal_strlit("/");
    reveal_strlit(".");
    let p = on_drive(c, parts);
    assert(p[0] == c && p[1] == ':' && p[2] == '\\');
    lemma_turned(parts);
    let u = unified(p);
    assert(u =~= turned(p));
    assert(turned(p) =~= seq![c, ':', '/'] + turned(joined(parts, "\\"@)));
    let drive = seq![c, ':'];
    assert(drive[0] == c && drive[1] == ':');
    assert(drive != "."@);
    assert(!drive.contains('/'));
    let rest = joined(parts, "/"@);
    assert(u =~= drive.push('/') + rest);
    lemma_split_at(drive, '/', rest);
    lemma_split_whole(drive, '/');
    let one = seq![drive];
    if parts.len() > 0 {
        assert("/"@ =~= seq!['/']);
        assert forall|i: int| 0 <= i < parts.len() implies !(#[trigger] parts[i]).contains('/') by {
            assert(plain_part(parts[i]));
        }
        law_joined_parts(parts, '/');
        assert(split(u, '/') =~= one + parts);
        let all = one + parts;
        assert forall|i: int| 0 <= i < all.len() implies plain_part(#[trigger] all[i]) by {
            if i > 0 {
                assert(all[i] == parts[i - 1]);
            } else {
                assert(all[0] == drive);
            }
        }
        lemma_kept_all(all);
    } else {
        let none = Seq::<char>::empty();
        assert(rest =~= none);
        assert(split(none, '/') =~= seq![none]);
        assert(split(u, '/') =~= seq![drive, none]);
        assert(seq![drive, none].drop_last() =~= one);
        assert(one.drop_last() =~= Seq::empty());
        assert(kept(one.drop_last()) =~= Seq::empty());
        assert(kept(one) =~= one);
        assert(one + parts =~= one);
    }
}

/// On a drive too, the parent of a path and its file name are what it was made of, and
/// taking the name from the parent gives the path back. A drive has neither.
pub proof fn law_parent_and_file_name_on_a_drive(c: char, parts: Seq<Seq<char>>, name: Seq<char>)
    requires
        'a' <= c <= 'z' || 'A' <= c <= 'Z',
        windows_parts(parts),
        plain_part(name),
        !name.contains('\\'),
        name != ".."@,
    ensures
        path_key(on_drive(c, parts)).parts == seq![seq![c, ':']] + parts,
        parent_of(on_drive(c, parts.push(name))) == Some(on_drive(c, parts)),
        file_name_of(on_drive(c, parts.push(name))) == Some(name),
        path_join(on_drive(c, parts), name) == on_drive(c, parts.push(name)),
        parent_of(on_drive(c, Seq::empty())) is None,
        file_name_of(on_drive(c, Seq::empty())) is None,
{
    reveal_strlit("/");
    reveal_strlit("\\");
    let whole = parts.push(name);
    assert forall|i: int| 0 <= i < whole.len() implies plain_part(#[trigger] whole[i])
        && !whole[i].contains('\\') by {
        if i < parts.len() {
            assert(whole[i] == parts[i]);
            assert(plain_part(parts[i]));
        }
    }
    let none = Seq::<Seq<char>>::empty();
    lemma_on_drive(c, whole);
    lemma_on_drive(c, parts);
    lemma_on_drive(c, none);
    let p = on_drive(c, whole);
    let drive = seq![c, ':'];
    let pieces = seq![drive] + whole;
    let n = parts.len() as int;
    assert(pieces[n + 1] == name);
    lemma_last_part_of(pieces);
    let front = pieces.take(n + 1);
    assert(front =~= seq![drive] + parts);
    assert(is_part(front, n)) by {
        if n > 0 {
            assert(front[n] == parts[n - 1]);
            assert(plain_part(parts[n - 1]));
        } else {
            assert(front[0] == drive);
        }
    }
    lemma_last_part_of(front);
    assert(whole.drop_last() =~= parts);
    assert(whole.last() == name);
    assert((seq![drive] + whole).last() == name);
    lemma_turned(parts);
    if n == 0 {
        assert(parts =~= none);
        assert(p.take(3) =~= on_drive(c, parts));
    } else {
        assert("/"@ =~= seq!['/']);
        lemma_joined_after(drive, parts);
        let base = on_drive(c, parts);
        assert(length_before(pieces, n + 1) == base.len());
        assert(p =~= base + "\\"@ + name);
        assert(p.take(base.len() as int) =~= base);
    }
    let two = seq![drive, Seq::<char>::empty()];
    assert(!is_part(two, 1));
    assert(two.drop_last() =~= seq![drive]);
    lemma_last_part_of(seq![drive]);
    assert(last_part(two) == 0);
    assert(seq![drive] + none =~= seq![drive]);
    let base = on_drive(c, parts);
    assert(!windows(name) && !rooted(name)) by {
        assert(name.contains(name[0]));
        if name.len() >= 3 {
            assert(name.contains(name[2]));
        }
    }
    if n == 0 {
        assert(base =~= seq![c, ':', '\\']);
        assert(unified(base).last() == '/');
        assert(path_join(base, name) =~= p);
    } else {
        lemma_joined_ends(parts);
        assert(plain_part(parts[n - 1]));
        let last = parts.last();
        let u = unified(base);
        assert(u.last() == joined(parts, "/"@).last());
        assert(last.contains(last[last.len() - 1]));
        assert(path_join(base, name) =~= p);
    }
}

proof fn lemma_joined_after(first: Seq<char>, parts: Seq<Seq<char>>)
    requires
        parts.len() > 0,
    ensures
        joined(seq![first] + parts, "/"@) == first + "/"@ + joined(parts, "/"@),
    decreases parts.len(),
{
    let all = seq![first] + parts;
    if parts.len() == 1 {
        assert(all.drop_last() =~= seq![first]);
        assert(joined(seq![first], "/"@) == first);
        assert(joined(all, "/"@) =~= first + "/"@ + parts[0]);
    } else {
        lemma_joined_after(first, parts.drop_last());
        assert(all.drop_last() =~= seq![first] + parts.drop_last());
        assert(joined(all, "/"@) =~= first + "/"@ + joined(parts, "/"@));
    }
}

} // verus!
